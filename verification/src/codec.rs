//! The record codec: field-by-field conversion between resource records and
//! their JSON wire form.
//!
//! Encoding walks a record's fields in schema order, emits camel-case keys,
//! omits absent optional fields and empty mappings, and delegates scalars to
//! the scalar codec. Decoding folds over the incoming object's entries:
//! known keys fill in fields, null values count as absent, unknown keys are
//! skipped, and missing fields keep the type's default value; a value of the
//! wrong shape for its key is a serialization error naming the field.
//! Untagged unions encode as the active alternative's own shape and decode
//! by trying the alternatives in declaration order.

use crate::error::{Error, ErrorKind, ErrorSource};
use crate::json::{
    entries_view, items_view, lemma_arr_view, lemma_obj_view, obj_has_key, obj_lookup, Json,
    JsonView,
};
use crate::scalar::{b64_dec, b64_enc, b64_to_bytes, bytes_to_b64, dec_to_i64, i64_rep, i64_to_dec, parse_i64};
use crate::strutil::str_eq;
use crate::wellknown::{
    duration_from_text, duration_of_text, duration_render, duration_text, fieldmask_parse_text,
    fieldmask_paths_of_text, fieldmask_render, fieldmask_text, timestamp_of_text,
    timestamp_parse_text, timestamp_render, timestamp_text, Duration, FieldMask, Timestamp,
};
use vstd::prelude::*;

verus! {

broadcast use vstd::std_specs::vec::group_vec_axioms, vstd::string::group_string_axioms;

/// The index of the first entry of `m` with key `k`, or -1.
pub open spec fn map_find<V>(m: Seq<(Seq<char>, V)>, k: Seq<char>) -> int
    decreases m.len(),
{
    if m.len() == 0 {
        -1
    } else if m[0].0 == k {
        0
    } else {
        let r = map_find(m.skip(1), k);
        if r < 0 {
            -1
        } else {
            1 + r
        }
    }
}

/// Binds `k` to `v` in `m`: replaces the value of the first entry with key
/// `k`, or appends a new entry when the key is absent.
pub open spec fn map_insert<V>(m: Seq<(Seq<char>, V)>, k: Seq<char>, v: V) -> Seq<(Seq<char>, V)> {
    let i = map_find(m, k);
    if i >= 0 {
        m.update(i, (k, v))
    } else {
        m.push((k, v))
    }
}

/// Whether the keys of `m` are pairwise distinct, as a key-unique mapping
/// requires.
pub open spec fn keys_unique<V>(m: Seq<(Seq<char>, V)>) -> bool {
    forall|i: int, j: int| 0 <= i < j < m.len() ==> m[i].0 != m[j].0
}

/// A key outside `m` is not found in it.
pub proof fn lemma_map_find_absent<V>(m: Seq<(Seq<char>, V)>, k: Seq<char>)
    requires
        forall|i: int| 0 <= i < m.len() ==> (#[trigger] m[i]).0 != k,
    ensures
        map_find(m, k) == -1,
    decreases m.len(),
{
    if m.len() > 0 {
        lemma_map_find_absent(m.skip(1), k);
    }
}

} // verus!

verus! {

/// The text of a JSON string value, or `None` for any other shape.
pub open spec fn field_str(v: JsonView) -> Option<Seq<char>> {
    match v {
        JsonView::Str(s) => Some(s),
        _ => None,
    }
}

/// The value of a JSON boolean, or `None` for any other shape.
pub open spec fn field_bool(v: JsonView) -> Option<bool> {
    match v {
        JsonView::Bool(b) => Some(b),
        _ => None,
    }
}

/// The value of a bare JSON number that fits in 32 bits, or `None`.
pub open spec fn field_i32(v: JsonView) -> Option<i32> {
    match v {
        JsonView::Int(n) => if i32::MIN <= n <= i32::MAX {
            Some(n as i32)
        } else {
            None
        },
        _ => None,
    }
}

/// The value of a string-encoded 64-bit integer, or `None`. A bare number
/// is not accepted for a 64-bit field.
pub open spec fn field_i64s(v: JsonView) -> Option<i64> {
    match v {
        JsonView::Str(s) => parse_i64(s),
        _ => None,
    }
}

/// The bytes of a base64 string value, or `None`.
pub open spec fn field_bytes(v: JsonView) -> Option<Seq<u8>> {
    match v {
        JsonView::Str(s) => b64_dec(s),
        _ => None,
    }
}

/// The timestamp of an RFC 3339 string value, or `None`.
pub open spec fn field_ts(v: JsonView) -> Option<Timestamp> {
    match v {
        JsonView::Str(s) => match timestamp_of_text(s) {
            Some(p) => Some(Timestamp { seconds: p.0, nanos: p.1 }),
            None => None,
        },
        _ => None,
    }
}

/// The duration of a canonical duration string value, or `None`.
pub open spec fn field_dur(v: JsonView) -> Option<Duration> {
    match v {
        JsonView::Str(s) => match duration_of_text(s) {
            Some(p) => Some(Duration { seconds: p.0, nanos: p.1 }),
            None => None,
        },
        _ => None,
    }
}

/// The paths of a field-mask string value, or `None` for a non-string.
pub open spec fn field_mask(v: JsonView) -> Option<Seq<Seq<char>>> {
    match v {
        JsonView::Str(s) => Some(fieldmask_paths_of_text(s)),
        _ => None,
    }
}

/// Reads a string-to-string mapping object, later entries overwriting
/// earlier ones with the same key.
pub open spec fn dec_strmap_entries(
    es: Seq<(Seq<char>, JsonView)>,
    acc: Seq<(Seq<char>, Seq<char>)>,
) -> Option<Seq<(Seq<char>, Seq<char>)>>
    decreases es.len(),
{
    if es.len() == 0 {
        Some(acc)
    } else {
        match field_str(es[0].1) {
            Some(s) => dec_strmap_entries(es.skip(1), map_insert(acc, es[0].0, s)),
            None => None,
        }
    }
}

/// The mapping of a string-to-string object value, or `None`.
pub open spec fn field_strmap(v: JsonView) -> Option<Seq<(Seq<char>, Seq<char>)>> {
    match v {
        JsonView::Obj(es) => dec_strmap_entries(es, Seq::empty()),
        _ => None,
    }
}

/// Reads a string-to-64-bit-integer mapping object; the values are
/// string-encoded integers.
pub open spec fn dec_i64map_entries(
    es: Seq<(Seq<char>, JsonView)>,
    acc: Seq<(Seq<char>, i64)>,
) -> Option<Seq<(Seq<char>, i64)>>
    decreases es.len(),
{
    if es.len() == 0 {
        Some(acc)
    } else {
        match field_i64s(es[0].1) {
            Some(n) => dec_i64map_entries(es.skip(1), map_insert(acc, es[0].0, n)),
            None => None,
        }
    }
}

/// The mapping of a string-to-integer object value, or `None`.
pub open spec fn field_i64map(v: JsonView) -> Option<Seq<(Seq<char>, i64)>> {
    match v {
        JsonView::Obj(es) => dec_i64map_entries(es, Seq::empty()),
        _ => None,
    }
}

/// The wire entries of a string-to-string mapping.
pub open spec fn enc_strmap_entries(m: Seq<(Seq<char>, Seq<char>)>) -> Seq<(Seq<char>, JsonView)> {
    Seq::new(m.len(), |i: int| (m[i].0, JsonView::Str(m[i].1)))
}

/// The wire entries of a string-to-integer mapping; values travel as
/// decimal strings.
pub open spec fn enc_i64map_entries(m: Seq<(Seq<char>, i64)>) -> Seq<(Seq<char>, JsonView)> {
    Seq::new(m.len(), |i: int| (m[i].0, JsonView::Str(i64_rep(m[i].1))))
}

/// Law: a key-unique string mapping survives the wire: reading back its
/// encoded entries on top of `acc` appends exactly the mapping.
pub proof fn lemma_strmap_round_trip(
    m: Seq<(Seq<char>, Seq<char>)>,
    acc: Seq<(Seq<char>, Seq<char>)>,
)
    requires
        keys_unique(acc + m),
    ensures
        dec_strmap_entries(enc_strmap_entries(m), acc) == Some(acc + m),
    decreases m.len(),
{
    let es = enc_strmap_entries(m);
    if m.len() == 0 {
        assert(es.len() == 0);
        assert(acc + m =~= acc);
    } else {
        assert(es[0] == (m[0].0, JsonView::Str(m[0].1)));
        assert(field_str(es[0].1) == Some(m[0].1));
        assert forall|i: int| 0 <= i < acc.len() implies (#[trigger] acc[i]).0 != m[0].0 by {
            assert((acc + m)[i] == acc[i]);
            assert((acc + m)[acc.len() as int] == m[0]);
        }
        lemma_map_find_absent(acc, m[0].0);
        let acc2 = acc.push((m[0].0, m[0].1));
        assert(map_insert(acc, m[0].0, m[0].1) == acc2);
        assert(acc2 =~= acc + seq![m[0]]);
        assert(acc + m =~= acc2 + m.skip(1));
        assert(keys_unique(acc2 + m.skip(1)));
        lemma_strmap_round_trip(m.skip(1), acc2);
        assert(es.skip(1) =~= enc_strmap_entries(m.skip(1)));
    }
}

/// Law: a key-unique integer mapping survives the wire the same way.
pub proof fn lemma_i64map_round_trip(m: Seq<(Seq<char>, i64)>, acc: Seq<(Seq<char>, i64)>)
    requires
        keys_unique(acc + m),
    ensures
        dec_i64map_entries(enc_i64map_entries(m), acc) == Some(acc + m),
    decreases m.len(),
{
    let es = enc_i64map_entries(m);
    if m.len() == 0 {
        assert(es.len() == 0);
        assert(acc + m =~= acc);
    } else {
        assert(es[0] == (m[0].0, JsonView::Str(i64_rep(m[0].1))));
        crate::scalar::lemma_i64_dec_round_trip(m[0].1);
        assert(field_i64s(es[0].1) == Some(m[0].1));
        assert forall|i: int| 0 <= i < acc.len() implies (#[trigger] acc[i]).0 != m[0].0 by {
            assert((acc + m)[i] == acc[i]);
            assert((acc + m)[acc.len() as int] == m[0]);
        }
        lemma_map_find_absent(acc, m[0].0);
        let acc2 = acc.push((m[0].0, m[0].1));
        assert(map_insert(acc, m[0].0, m[0].1) == acc2);
        assert(acc2 =~= acc + seq![m[0]]);
        assert(acc + m =~= acc2 + m.skip(1));
        assert(keys_unique(acc2 + m.skip(1)));
        lemma_i64map_round_trip(m.skip(1), acc2);
        assert(es.skip(1) =~= enc_i64map_entries(m.skip(1)));
    }
}

} // verus!

verus! {

/// Builds the serialization error for a field whose value has the wrong
/// shape, naming the record and the field.
fn field_error(record: &str, key: &str) -> (r: Error)
    ensures
        r.kind == ErrorKind::Serde,
{
    let mut msg = String::new();
    msg.append("wrong shape for field `");
    msg.append(key);
    msg.append("` of ");
    msg.append(record);
    Error::serde(ErrorSource::Message(msg))
}

/// Builds the serialization error for a record that is not a JSON object,
/// or a union value no alternative of which matches.
fn shape_error(record: &str) -> (r: Error)
    ensures
        r.kind == ErrorKind::Serde,
{
    let mut msg = String::new();
    msg.append("wrong shape for ");
    msg.append(record);
    Error::serde(ErrorSource::Message(msg))
}

/// Reads a JSON string value.
fn jv_str(v: &Json) -> (r: Result<String, ()>)
    ensures
        match r {
            Ok(s) => field_str(v@) == Some(s@),
            Err(_) => field_str(v@) is None,
        },
{
    match v {
        Json::Str(s) => Ok(s.clone()),
        _ => Err(()),
    }
}

/// Reads a JSON boolean value.
fn jv_bool(v: &Json) -> (r: Result<bool, ()>)
    ensures
        match r {
            Ok(b) => field_bool(v@) == Some(b),
            Err(_) => field_bool(v@) is None,
        },
{
    match v {
        Json::Bool(b) => Ok(*b),
        _ => Err(()),
    }
}

/// Reads a bare JSON number that fits in 32 bits.
fn jv_i32(v: &Json) -> (r: Result<i32, ()>)
    ensures
        match r {
            Ok(n) => field_i32(v@) == Some(n),
            Err(_) => field_i32(v@) is None,
        },
{
    match v {
        Json::Int(n) => if i32::MIN as i64 <= *n && *n <= i32::MAX as i64 {
            Ok(*n as i32)
        } else {
            Err(())
        },
        _ => Err(()),
    }
}

/// Reads a string-encoded 64-bit integer value.
fn jv_i64s(v: &Json) -> (r: Result<i64, ()>)
    ensures
        match r {
            Ok(n) => field_i64s(v@) == Some(n),
            Err(_) => field_i64s(v@) is None,
        },
{
    match v {
        Json::Str(s) => match dec_to_i64(s.as_str()) {
            Some(n) => Ok(n),
            None => Err(()),
        },
        _ => Err(()),
    }
}

/// Reads a base64 string value.
fn jv_bytes(v: &Json) -> (r: Result<Vec<u8>, ()>)
    ensures
        match r {
            Ok(b) => field_bytes(v@) == Some(b@),
            Err(_) => field_bytes(v@) is None,
        },
{
    match v {
        Json::Str(s) => match b64_to_bytes(s.as_str()) {
            Some(b) => Ok(b),
            None => Err(()),
        },
        _ => Err(()),
    }
}

/// Reads an RFC 3339 timestamp string value.
fn jv_ts(v: &Json) -> (r: Result<Timestamp, ()>)
    ensures
        match r {
            Ok(t) => field_ts(v@) == Some(t) && t.wf(),
            Err(_) => field_ts(v@) is None,
        },
{
    match v {
        Json::Str(s) => match timestamp_parse_text(s.as_str()) {
            Some(p) => Ok(Timestamp { seconds: p.0, nanos: p.1 }),
            None => Err(()),
        },
        _ => Err(()),
    }
}

/// Reads a canonical duration string value.
fn jv_dur(v: &Json) -> (r: Result<Duration, ()>)
    ensures
        match r {
            Ok(d) => field_dur(v@) == Some(d) && d.wf(),
            Err(_) => field_dur(v@) is None,
        },
{
    match v {
        Json::Str(s) => match duration_from_text(s.as_str()) {
            Some(p) => Ok(Duration { seconds: p.0, nanos: p.1 }),
            None => Err(()),
        },
        _ => Err(()),
    }
}

/// Reads a field-mask string value.
fn jv_mask(v: &Json) -> (r: Result<FieldMask, ()>)
    ensures
        match r {
            Ok(m) => field_mask(v@) == Some(m.paths.deep_view()),
            Err(_) => field_mask(v@) is None,
        },
{
    match v {
        Json::Str(s) => Ok(FieldMask { paths: fieldmask_parse_text(s.as_str()) }),
        _ => Err(()),
    }
}

/// The view of an executable string-to-string pair list.
pub open spec fn strpairs_view(m: Vec<(String, String)>) -> Seq<(Seq<char>, Seq<char>)> {
    Seq::new(m@.len(), |i: int| (m@[i].0@, m@[i].1@))
}

/// The view of an executable string-to-integer pair list.
pub open spec fn i64pairs_view(m: Vec<(String, i64)>) -> Seq<(Seq<char>, i64)> {
    Seq::new(m@.len(), |i: int| (m@[i].0@, m@[i].1))
}

/// The first matching key of `m` is found where the prefix has no match.
proof fn lemma_map_find_at<V>(m: Seq<(Seq<char>, V)>, k: Seq<char>, i: int)
    requires
        0 <= i < m.len(),
        m[i].0 == k,
        forall|j: int| 0 <= j < i ==> m[j].0 != k,
    ensures
        map_find(m, k) == i,
    decreases i,
{
    if i > 0 {
        lemma_map_find_at(m.skip(1), k, i - 1);
    }
}

} // verus!

verus! {

/// Binds `k` to `v` in an executable pair list, per [`map_insert`].
fn strmap_put(acc: &mut Vec<(String, String)>, k: String, v: String)
    ensures
        strpairs_view(*final(acc)) == map_insert(strpairs_view(*old(acc)), k@, v@),
{
    let ghost m0 = strpairs_view(*old(acc));
    let mut i: usize = 0;
    while i < acc.len()
        invariant
            i <= acc@.len(),
            *acc == *old(acc),
            m0 == strpairs_view(*acc),
            forall|j: int| 0 <= j < i ==> m0[j].0 != k@,
        decreases acc@.len() - i,
    {
        assert(m0[i as int] == (acc@[i as int].0@, acc@[i as int].1@));
        if str_eq(acc[i].0.as_str(), k.as_str()) {
            proof {
                lemma_map_find_at(m0, k@, i as int);
            }
            acc.set(i, (k, v));
            proof {
                assert(strpairs_view(*acc) =~= m0.update(i as int, (k@, v@)));
            }
            return ;
        }
        i += 1;
    }
    proof {
        lemma_map_find_absent(m0, k@);
    }
    acc.push((k, v));
    proof {
        assert(strpairs_view(*acc) =~= m0.push((k@, v@)));
    }
}

/// Binds `k` to `v` in an executable integer pair list, per [`map_insert`].
fn i64map_put(acc: &mut Vec<(String, i64)>, k: String, v: i64)
    ensures
        i64pairs_view(*final(acc)) == map_insert(i64pairs_view(*old(acc)), k@, v),
{
    let ghost m0 = i64pairs_view(*old(acc));
    let mut i: usize = 0;
    while i < acc.len()
        invariant
            i <= acc@.len(),
            *acc == *old(acc),
            m0 == i64pairs_view(*acc),
            forall|j: int| 0 <= j < i ==> m0[j].0 != k@,
        decreases acc@.len() - i,
    {
        assert(m0[i as int] == (acc@[i as int].0@, acc@[i as int].1));
        if str_eq(acc[i].0.as_str(), k.as_str()) {
            proof {
                lemma_map_find_at(m0, k@, i as int);
            }
            acc.set(i, (k, v));
            proof {
                assert(i64pairs_view(*acc) =~= m0.update(i as int, (k@, v)));
            }
            return ;
        }
        i += 1;
    }
    proof {
        lemma_map_find_absent(m0, k@);
    }
    acc.push((k, v));
    proof {
        assert(i64pairs_view(*acc) =~= m0.push((k@, v)));
    }
}

/// Reads a string-to-string mapping object.
fn jv_strmap(v: &Json) -> (r: Result<Vec<(String, String)>, ()>)
    ensures
        match r {
            Ok(m) => field_strmap(v@) == Some(strpairs_view(m)),
            Err(_) => field_strmap(v@) is None,
        },
{
    let es = match v {
        Json::Obj(es) => es,
        _ => {
            return Err(());
        },
    };
    let ghost es0 = entries_view(*es);
    proof {
        lemma_obj_view(*es);
    }
    let mut acc: Vec<(String, String)> = Vec::new();
    let mut i: usize = 0;
    proof {
        assert(strpairs_view(acc) =~= Seq::<(Seq<char>, Seq<char>)>::empty());
        assert(es0.skip(0) =~= es0);
    }
    while i < es.len()
        invariant
            i <= es@.len(),
            es0 == entries_view(*es),
            es0.len() == es@.len(),
            v@ == JsonView::Obj(es0),
            dec_strmap_entries(es0, Seq::empty()) == dec_strmap_entries(
                es0.skip(i as int),
                strpairs_view(acc),
            ),
        decreases es@.len() - i,
    {
        let ghost pre = es0.skip(i as int);
        proof {
            assert(pre[0] == es0[i as int]);
            assert(es0[i as int] == (es@[i as int].0@, es@[i as int].1@));
            assert(pre.skip(1) =~= es0.skip(i as int + 1));
        }
        let k = es[i].0.clone();
        match jv_str(&es[i].1) {
            Ok(sv) => {
                strmap_put(&mut acc, k, sv);
            },
            Err(_) => {
                return Err(());
            },
        }
        i += 1;
    }
    proof {
        assert(es0.skip(i as int).len() == 0);
    }
    Ok(acc)
}

/// Reads a string-to-integer mapping object; the values travel as strings.
fn jv_i64map(v: &Json) -> (r: Result<Vec<(String, i64)>, ()>)
    ensures
        match r {
            Ok(m) => field_i64map(v@) == Some(i64pairs_view(m)),
            Err(_) => field_i64map(v@) is None,
        },
{
    let es = match v {
        Json::Obj(es) => es,
        _ => {
            return Err(());
        },
    };
    let ghost es0 = entries_view(*es);
    proof {
        lemma_obj_view(*es);
    }
    let mut acc: Vec<(String, i64)> = Vec::new();
    let mut i: usize = 0;
    proof {
        assert(i64pairs_view(acc) =~= Seq::<(Seq<char>, i64)>::empty());
        assert(es0.skip(0) =~= es0);
    }
    while i < es.len()
        invariant
            i <= es@.len(),
            es0 == entries_view(*es),
            es0.len() == es@.len(),
            v@ == JsonView::Obj(es0),
            dec_i64map_entries(es0, Seq::empty()) == dec_i64map_entries(
                es0.skip(i as int),
                i64pairs_view(acc),
            ),
        decreases es@.len() - i,
    {
        let ghost pre = es0.skip(i as int);
        proof {
            assert(pre[0] == es0[i as int]);
            assert(es0[i as int] == (es@[i as int].0@, es@[i as int].1@));
            assert(pre.skip(1) =~= es0.skip(i as int + 1));
        }
        let k = es[i].0.clone();
        match jv_i64s(&es[i].1) {
            Ok(n) => {
                i64map_put(&mut acc, k, n);
            },
            Err(_) => {
                return Err(());
            },
        }
        i += 1;
    }
    proof {
        assert(es0.skip(i as int).len() == 0);
    }
    Ok(acc)
}

} // verus!





verus! {

/// The fact the round-trip laws need of the trusted timestamp conversion,
/// stated of one timestamp: its rendered text parses back to the same
/// value. It is the contract of the rendering wrapper, so it holds of
/// every timestamp an encoder writes.
pub open spec fn timestamp_text_inverts(t: Timestamp) -> bool {
    timestamp_of_text(timestamp_text(t.seconds, t.nanos)) == Some((t.seconds, t.nanos))
}


impl crate::model::TopicView {
    /// Every topic value is well-formed.
    pub open spec fn wf(self) -> bool {
        true
    }
}


impl crate::model::CustomerManagedEncryptionView {
    /// Every configuration value is well-formed.
    pub open spec fn wf(self) -> bool {
        true
    }
}


impl crate::model::CustomerManagedEncryptionStatusView {
    /// Every status value is well-formed.
    pub open spec fn wf(self) -> bool {
        true
    }
}


/// The wire entries of a topic, in schema order.
pub open spec fn enc_topic_entries(v: crate::model::TopicView) -> Seq<(Seq<char>, JsonView)> {
    seq![("name"@, JsonView::Str(v.name))]
}

/// The wire form of a topic.
pub open spec fn enc_topic(v: crate::model::TopicView) -> JsonView {
    JsonView::Obj(enc_topic_entries(v))
}

/// One decoding step of a topic: a known key fills its field, null
/// counts as absent, an unknown key is skipped.
pub open spec fn dec_topic_field(acc: crate::model::TopicView, key: Seq<char>, val: JsonView) -> Option<crate::model::TopicView> {
    if key == "name"@ {
        if val is Null {
            Some(acc)
        } else {
            match field_str(val) {
                Some(s) => Some(crate::model::TopicView { name: s, ..acc }),
                None => None,
            }
        }
    } else {
        Some(acc)
    }
}

/// Decoding over the entries of a topic, entry by entry.
pub open spec fn dec_topic_entries(es: Seq<(Seq<char>, JsonView)>, acc: crate::model::TopicView) -> Option<crate::model::TopicView>
    decreases es.len(),
{
    if es.len() == 0 {
        Some(acc)
    } else {
        match dec_topic_field(acc, es[0].0, es[0].1) {
            Some(a2) => dec_topic_entries(es.skip(1), a2),
            None => None,
        }
    }
}

/// The value of a topic a wire value denotes, starting from the default.
pub open spec fn dec_topic(j: JsonView) -> Option<crate::model::TopicView> {
    match j {
        JsonView::Obj(es) => dec_topic_entries(es, crate::model::TopicView::default_v()),
        _ => None,
    }
}

/// Decoding distributes over concatenated entry lists.
proof fn lemma_dec_topic_entries_concat(
    a: Seq<(Seq<char>, JsonView)>,
    b: Seq<(Seq<char>, JsonView)>,
    acc: crate::model::TopicView,
)
    ensures
        dec_topic_entries(a + b, acc) == match dec_topic_entries(a, acc) {
            Some(m) => dec_topic_entries(b, m),
            None => None::<crate::model::TopicView>,
        },
    decreases a.len(),
{
    if a.len() == 0 {
        assert(a + b =~= b);
    } else {
        assert((a + b)[0] == a[0]);
        match dec_topic_field(acc, a[0].0, a[0].1) {
            Some(m) => {
                lemma_dec_topic_entries_concat(a.skip(1), b, m);
                assert((a + b).skip(1) =~= a.skip(1) + b);
            },
            None => {},
        }
    }
}

/// Encodes a topic in its wire form.
pub fn encode_topic(v: &crate::model::Topic) -> (r: Json)
    requires
        v@.wf(),
    ensures
        r@ == enc_topic(v@),
{
    let ghost vv = v@;
    let mut es: Vec<(String, Json)> = Vec::new();
    let ghost mut expect: Seq<(Seq<char>, JsonView)> = Seq::empty();
    proof {
        assert(entries_view(es) =~= expect);
    }
        es.push(("name".to_owned(), Json::Str(v.name.clone())));
        proof {
            expect = expect + seq![("name"@, JsonView::Str(vv.name))];
            assert(entries_view(es) =~= expect);
        }
    let r = Json::Obj(es);
    proof {
        lemma_obj_view(r->Obj_0);
        assert(expect =~= enc_topic_entries(vv));
    }
    r
}

/// Decodes a topic from its wire form: unknown keys are skipped, null
/// values and missing fields leave the default, and a value of the wrong
/// shape for its key is a serialization error naming the field.
pub fn decode_topic(v: &Json) -> (r: Result<crate::model::Topic, Error>)
    ensures
        match r {
            Ok(out) => dec_topic(v@) == Some(out@),
            Err(e) => dec_topic(v@) is None && e.kind == ErrorKind::Serde,
        },
{
    let es = match v {
        Json::Obj(es) => es,
        _ => {
            return Err(shape_error("Topic"));
        },
    };
    let ghost es0 = entries_view(*es);
    proof {
        lemma_obj_view(*es);
    }
    let mut out = crate::model::Topic::default();
    let mut i: usize = 0;
    proof {
        assert(es0.skip(0) =~= es0);
    }
    while i < es.len()
        invariant
            i <= es@.len(),
            es0 == entries_view(*es),
            es0.len() == es@.len(),
            v@ == JsonView::Obj(es0),
            dec_topic_entries(es0, crate::model::TopicView::default_v()) == dec_topic_entries(
                es0.skip(i as int),
                out@,
            ),
        decreases es@.len() - i,
    {
        let ghost pre = es0.skip(i as int);
        proof {
            assert(pre[0] == es0[i as int]);
            assert(es0[i as int] == (es@[i as int].0@, es@[i as int].1@));
            assert(pre.skip(1) =~= es0.skip(i as int + 1));
        }
        let key = &es[i].0;
        let val = &es[i].1;
        if str_eq(key.as_str(), "name") {
                if let Json::Null = val {
                } else {
                    match jv_str(val) {
                    Ok(x) => {
                        out = crate::model::Topic { name: x, ..out };
                    },
                    Err(_) => {
                        return Err(field_error("Topic", "name"));
                    },
                }
                }
            }
        i += 1;
    }
    proof {
        assert(es0.skip(i as int).len() == 0);
    }
    Ok(out)
}

/// Law: a topic survives the wire: decoding its encoding gives back the
/// same value, field for field.
pub proof fn lemma_topic_round_trip(v: crate::model::TopicView)
    requires
        v.wf(),
    ensures
        dec_topic(enc_topic(v)) == Some(v),
{
    reveal_strlit("name");
    assert(("name"@).len() == 4);
    let a0 = crate::model::TopicView::default_v();
    let s1 = seq![("name"@, JsonView::Str(v.name))];
    let t1 = s1;
    assert(enc_topic_entries(v) =~= t1);
    let a1 = crate::model::TopicView { name: v.name, ..a0 };
    {
        assert(dec_topic_field(a0, "name"@, JsonView::Str(v.name)) == Some(a1));
        assert(s1.len() == 1);
        assert(s1.skip(1).len() == 0);
        assert(dec_topic_entries(s1.skip(1), a1) == Some(a1));
        assert(dec_topic_entries(s1, a0) == Some(a1));
    }

    assert(dec_topic_entries(t1, a0) == Some(a1));
    assert(a1 == v);
    assert(dec_topic_entries(enc_topic_entries(v), a0) == Some(v));
}

/// The wire entries of a customer-managed encryption configuration, in schema order.
pub open spec fn enc_customer_managed_encryption_entries(v: crate::model::CustomerManagedEncryptionView) -> Seq<(Seq<char>, JsonView)> {
    seq![("kmsKeyName"@, JsonView::Str(v.kms_key_name))]
}

/// The wire form of a customer-managed encryption configuration.
pub open spec fn enc_customer_managed_encryption(v: crate::model::CustomerManagedEncryptionView) -> JsonView {
    JsonView::Obj(enc_customer_managed_encryption_entries(v))
}

/// One decoding step of a customer-managed encryption configuration: a known key fills its field, null
/// counts as absent, an unknown key is skipped.
pub open spec fn dec_customer_managed_encryption_field(acc: crate::model::CustomerManagedEncryptionView, key: Seq<char>, val: JsonView) -> Option<crate::model::CustomerManagedEncryptionView> {
    if key == "kmsKeyName"@ {
        if val is Null {
            Some(acc)
        } else {
            match field_str(val) {
                Some(s) => Some(crate::model::CustomerManagedEncryptionView { kms_key_name: s, ..acc }),
                None => None,
            }
        }
    } else {
        Some(acc)
    }
}

/// Decoding over the entries of a customer-managed encryption configuration, entry by entry.
pub open spec fn dec_customer_managed_encryption_entries(es: Seq<(Seq<char>, JsonView)>, acc: crate::model::CustomerManagedEncryptionView) -> Option<crate::model::CustomerManagedEncryptionView>
    decreases es.len(),
{
    if es.len() == 0 {
        Some(acc)
    } else {
        match dec_customer_managed_encryption_field(acc, es[0].0, es[0].1) {
            Some(a2) => dec_customer_managed_encryption_entries(es.skip(1), a2),
            None => None,
        }
    }
}

/// The value of a customer-managed encryption configuration a wire value denotes, starting from the default.
pub open spec fn dec_customer_managed_encryption(j: JsonView) -> Option<crate::model::CustomerManagedEncryptionView> {
    match j {
        JsonView::Obj(es) => dec_customer_managed_encryption_entries(es, crate::model::CustomerManagedEncryptionView::default_v()),
        _ => None,
    }
}

/// Decoding distributes over concatenated entry lists.
proof fn lemma_dec_customer_managed_encryption_entries_concat(
    a: Seq<(Seq<char>, JsonView)>,
    b: Seq<(Seq<char>, JsonView)>,
    acc: crate::model::CustomerManagedEncryptionView,
)
    ensures
        dec_customer_managed_encryption_entries(a + b, acc) == match dec_customer_managed_encryption_entries(a, acc) {
            Some(m) => dec_customer_managed_encryption_entries(b, m),
            None => None::<crate::model::CustomerManagedEncryptionView>,
        },
    decreases a.len(),
{
    if a.len() == 0 {
        assert(a + b =~= b);
    } else {
        assert((a + b)[0] == a[0]);
        match dec_customer_managed_encryption_field(acc, a[0].0, a[0].1) {
            Some(m) => {
                lemma_dec_customer_managed_encryption_entries_concat(a.skip(1), b, m);
                assert((a + b).skip(1) =~= a.skip(1) + b);
            },
            None => {},
        }
    }
}

/// Encodes a customer-managed encryption configuration in its wire form.
pub fn encode_customer_managed_encryption(v: &crate::model::CustomerManagedEncryption) -> (r: Json)
    requires
        v@.wf(),
    ensures
        r@ == enc_customer_managed_encryption(v@),
{
    let ghost vv = v@;
    let mut es: Vec<(String, Json)> = Vec::new();
    let ghost mut expect: Seq<(Seq<char>, JsonView)> = Seq::empty();
    proof {
        assert(entries_view(es) =~= expect);
    }
        es.push(("kmsKeyName".to_owned(), Json::Str(v.kms_key_name.clone())));
        proof {
            expect = expect + seq![("kmsKeyName"@, JsonView::Str(vv.kms_key_name))];
            assert(entries_view(es) =~= expect);
        }
    let r = Json::Obj(es);
    proof {
        lemma_obj_view(r->Obj_0);
        assert(expect =~= enc_customer_managed_encryption_entries(vv));
    }
    r
}

/// Decodes a customer-managed encryption configuration from its wire form: unknown keys are skipped, null
/// values and missing fields leave the default, and a value of the wrong
/// shape for its key is a serialization error naming the field.
pub fn decode_customer_managed_encryption(v: &Json) -> (r: Result<crate::model::CustomerManagedEncryption, Error>)
    ensures
        match r {
            Ok(out) => dec_customer_managed_encryption(v@) == Some(out@),
            Err(e) => dec_customer_managed_encryption(v@) is None && e.kind == ErrorKind::Serde,
        },
{
    let es = match v {
        Json::Obj(es) => es,
        _ => {
            return Err(shape_error("CustomerManagedEncryption"));
        },
    };
    let ghost es0 = entries_view(*es);
    proof {
        lemma_obj_view(*es);
    }
    let mut out = crate::model::CustomerManagedEncryption::default();
    let mut i: usize = 0;
    proof {
        assert(es0.skip(0) =~= es0);
    }
    while i < es.len()
        invariant
            i <= es@.len(),
            es0 == entries_view(*es),
            es0.len() == es@.len(),
            v@ == JsonView::Obj(es0),
            dec_customer_managed_encryption_entries(es0, crate::model::CustomerManagedEncryptionView::default_v()) == dec_customer_managed_encryption_entries(
                es0.skip(i as int),
                out@,
            ),
        decreases es@.len() - i,
    {
        let ghost pre = es0.skip(i as int);
        proof {
            assert(pre[0] == es0[i as int]);
            assert(es0[i as int] == (es@[i as int].0@, es@[i as int].1@));
            assert(pre.skip(1) =~= es0.skip(i as int + 1));
        }
        let key = &es[i].0;
        let val = &es[i].1;
        if str_eq(key.as_str(), "kmsKeyName") {
                if let Json::Null = val {
                } else {
                    match jv_str(val) {
                    Ok(x) => {
                        out = crate::model::CustomerManagedEncryption { kms_key_name: x, ..out };
                    },
                    Err(_) => {
                        return Err(field_error("CustomerManagedEncryption", "kmsKeyName"));
                    },
                }
                }
            }
        i += 1;
    }
    proof {
        assert(es0.skip(i as int).len() == 0);
    }
    Ok(out)
}

/// Law: a customer-managed encryption configuration survives the wire: decoding its encoding gives back the
/// same value, field for field.
pub proof fn lemma_customer_managed_encryption_round_trip(v: crate::model::CustomerManagedEncryptionView)
    requires
        v.wf(),
    ensures
        dec_customer_managed_encryption(enc_customer_managed_encryption(v)) == Some(v),
{
    reveal_strlit("kmsKeyName");
    assert(("kmsKeyName"@).len() == 10);
    let a0 = crate::model::CustomerManagedEncryptionView::default_v();
    let s1 = seq![("kmsKeyName"@, JsonView::Str(v.kms_key_name))];
    let t1 = s1;
    assert(enc_customer_managed_encryption_entries(v) =~= t1);
    let a1 = crate::model::CustomerManagedEncryptionView { kms_key_name: v.kms_key_name, ..a0 };
    {
        assert(dec_customer_managed_encryption_field(a0, "kmsKeyName"@, JsonView::Str(v.kms_key_name)) == Some(a1));
        assert(s1.len() == 1);
        assert(s1.skip(1).len() == 0);
        assert(dec_customer_managed_encryption_entries(s1.skip(1), a1) == Some(a1));
        assert(dec_customer_managed_encryption_entries(s1, a0) == Some(a1));
    }

    assert(dec_customer_managed_encryption_entries(t1, a0) == Some(a1));
    assert(a1 == v);
    assert(dec_customer_managed_encryption_entries(enc_customer_managed_encryption_entries(v), a0) == Some(v));
}

/// The wire entries of a customer-managed encryption status, in schema order.
pub open spec fn enc_customer_managed_encryption_status_entries(v: crate::model::CustomerManagedEncryptionStatusView) -> Seq<(Seq<char>, JsonView)> {
    seq![("kmsKeyVersionName"@, JsonView::Str(v.kms_key_version_name))]
}

/// The wire form of a customer-managed encryption status.
pub open spec fn enc_customer_managed_encryption_status(v: crate::model::CustomerManagedEncryptionStatusView) -> JsonView {
    JsonView::Obj(enc_customer_managed_encryption_status_entries(v))
}

/// One decoding step of a customer-managed encryption status: a known key fills its field, null
/// counts as absent, an unknown key is skipped.
pub open spec fn dec_customer_managed_encryption_status_field(acc: crate::model::CustomerManagedEncryptionStatusView, key: Seq<char>, val: JsonView) -> Option<crate::model::CustomerManagedEncryptionStatusView> {
    if key == "kmsKeyVersionName"@ {
        if val is Null {
            Some(acc)
        } else {
            match field_str(val) {
                Some(s) => Some(crate::model::CustomerManagedEncryptionStatusView { kms_key_version_name: s, ..acc }),
                None => None,
            }
        }
    } else {
        Some(acc)
    }
}

/// Decoding over the entries of a customer-managed encryption status, entry by entry.
pub open spec fn dec_customer_managed_encryption_status_entries(es: Seq<(Seq<char>, JsonView)>, acc: crate::model::CustomerManagedEncryptionStatusView) -> Option<crate::model::CustomerManagedEncryptionStatusView>
    decreases es.len(),
{
    if es.len() == 0 {
        Some(acc)
    } else {
        match dec_customer_managed_encryption_status_field(acc, es[0].0, es[0].1) {
            Some(a2) => dec_customer_managed_encryption_status_entries(es.skip(1), a2),
            None => None,
        }
    }
}

/// The value of a customer-managed encryption status a wire value denotes, starting from the default.
pub open spec fn dec_customer_managed_encryption_status(j: JsonView) -> Option<crate::model::CustomerManagedEncryptionStatusView> {
    match j {
        JsonView::Obj(es) => dec_customer_managed_encryption_status_entries(es, crate::model::CustomerManagedEncryptionStatusView::default_v()),
        _ => None,
    }
}

/// Decoding distributes over concatenated entry lists.
proof fn lemma_dec_customer_managed_encryption_status_entries_concat(
    a: Seq<(Seq<char>, JsonView)>,
    b: Seq<(Seq<char>, JsonView)>,
    acc: crate::model::CustomerManagedEncryptionStatusView,
)
    ensures
        dec_customer_managed_encryption_status_entries(a + b, acc) == match dec_customer_managed_encryption_status_entries(a, acc) {
            Some(m) => dec_customer_managed_encryption_status_entries(b, m),
            None => None::<crate::model::CustomerManagedEncryptionStatusView>,
        },
    decreases a.len(),
{
    if a.len() == 0 {
        assert(a + b =~= b);
    } else {
        assert((a + b)[0] == a[0]);
        match dec_customer_managed_encryption_status_field(acc, a[0].0, a[0].1) {
            Some(m) => {
                lemma_dec_customer_managed_encryption_status_entries_concat(a.skip(1), b, m);
                assert((a + b).skip(1) =~= a.skip(1) + b);
            },
            None => {},
        }
    }
}

/// Encodes a customer-managed encryption status in its wire form.
pub fn encode_customer_managed_encryption_status(v: &crate::model::CustomerManagedEncryptionStatus) -> (r: Json)
    requires
        v@.wf(),
    ensures
        r@ == enc_customer_managed_encryption_status(v@),
{
    let ghost vv = v@;
    let mut es: Vec<(String, Json)> = Vec::new();
    let ghost mut expect: Seq<(Seq<char>, JsonView)> = Seq::empty();
    proof {
        assert(entries_view(es) =~= expect);
    }
        es.push(("kmsKeyVersionName".to_owned(), Json::Str(v.kms_key_version_name.clone())));
        proof {
            expect = expect + seq![("kmsKeyVersionName"@, JsonView::Str(vv.kms_key_version_name))];
            assert(entries_view(es) =~= expect);
        }
    let r = Json::Obj(es);
    proof {
        lemma_obj_view(r->Obj_0);
        assert(expect =~= enc_customer_managed_encryption_status_entries(vv));
    }
    r
}

/// Decodes a customer-managed encryption status from its wire form: unknown keys are skipped, null
/// values and missing fields leave the default, and a value of the wrong
/// shape for its key is a serialization error naming the field.
pub fn decode_customer_managed_encryption_status(v: &Json) -> (r: Result<crate::model::CustomerManagedEncryptionStatus, Error>)
    ensures
        match r {
            Ok(out) => dec_customer_managed_encryption_status(v@) == Some(out@),
            Err(e) => dec_customer_managed_encryption_status(v@) is None && e.kind == ErrorKind::Serde,
        },
{
    let es = match v {
        Json::Obj(es) => es,
        _ => {
            return Err(shape_error("CustomerManagedEncryptionStatus"));
        },
    };
    let ghost es0 = entries_view(*es);
    proof {
        lemma_obj_view(*es);
    }
    let mut out = crate::model::CustomerManagedEncryptionStatus::default();
    let mut i: usize = 0;
    proof {
        assert(es0.skip(0) =~= es0);
    }
    while i < es.len()
        invariant
            i <= es@.len(),
            es0 == entries_view(*es),
            es0.len() == es@.len(),
            v@ == JsonView::Obj(es0),
            dec_customer_managed_encryption_status_entries(es0, crate::model::CustomerManagedEncryptionStatusView::default_v()) == dec_customer_managed_encryption_status_entries(
                es0.skip(i as int),
                out@,
            ),
        decreases es@.len() - i,
    {
        let ghost pre = es0.skip(i as int);
        proof {
            assert(pre[0] == es0[i as int]);
            assert(es0[i as int] == (es@[i as int].0@, es@[i as int].1@));
            assert(pre.skip(1) =~= es0.skip(i as int + 1));
        }
        let key = &es[i].0;
        let val = &es[i].1;
        if str_eq(key.as_str(), "kmsKeyVersionName") {
                if let Json::Null = val {
                } else {
                    match jv_str(val) {
                    Ok(x) => {
                        out = crate::model::CustomerManagedEncryptionStatus { kms_key_version_name: x, ..out };
                    },
                    Err(_) => {
                        return Err(field_error("CustomerManagedEncryptionStatus", "kmsKeyVersionName"));
                    },
                }
                }
            }
        i += 1;
    }
    proof {
        assert(es0.skip(i as int).len() == 0);
    }
    Ok(out)
}

/// Law: a customer-managed encryption status survives the wire: decoding its encoding gives back the
/// same value, field for field.
pub proof fn lemma_customer_managed_encryption_status_round_trip(v: crate::model::CustomerManagedEncryptionStatusView)
    requires
        v.wf(),
    ensures
        dec_customer_managed_encryption_status(enc_customer_managed_encryption_status(v)) == Some(v),
{
    reveal_strlit("kmsKeyVersionName");
    assert(("kmsKeyVersionName"@).len() == 17);
    let a0 = crate::model::CustomerManagedEncryptionStatusView::default_v();
    let s1 = seq![("kmsKeyVersionName"@, JsonView::Str(v.kms_key_version_name))];
    let t1 = s1;
    assert(enc_customer_managed_encryption_status_entries(v) =~= t1);
    let a1 = crate::model::CustomerManagedEncryptionStatusView { kms_key_version_name: v.kms_key_version_name, ..a0 };
    {
        assert(dec_customer_managed_encryption_status_field(a0, "kmsKeyVersionName"@, JsonView::Str(v.kms_key_version_name)) == Some(a1));
        assert(s1.len() == 1);
        assert(s1.skip(1).len() == 0);
        assert(dec_customer_managed_encryption_status_entries(s1.skip(1), a1) == Some(a1));
        assert(dec_customer_managed_encryption_status_entries(s1, a0) == Some(a1));
    }

    assert(dec_customer_managed_encryption_status_entries(t1, a0) == Some(a1));
    assert(a1 == v);
    assert(dec_customer_managed_encryption_status_entries(enc_customer_managed_encryption_status_entries(v), a0) == Some(v));
}

} // verus!

verus! {

impl crate::model::replication::user_managed::ReplicaView {
    /// Whether the replica and what it contains are well-formed.
    pub open spec fn wf(self) -> bool {
        (match self.customer_managed_encryption { Some(x) => x.wf(), None => true })
    }
}


impl crate::model::replication::AutomaticView {
    /// Whether the policy and what it contains are well-formed.
    pub open spec fn wf(self) -> bool {
        (match self.customer_managed_encryption { Some(x) => x.wf(), None => true })
    }
}


impl crate::model::replication::UserManagedView {
    /// Whether every replica of the policy is well-formed.
    pub open spec fn wf(self) -> bool {
        (forall|i: int| 0 <= i < self.replicas.len() ==> (#[trigger] self.replicas[i]).wf())
    }
}


impl crate::model::replication_status::user_managed_status::ReplicaStatusView {
    /// Whether the replica status and what it contains are well-formed.
    pub open spec fn wf(self) -> bool {
        (match self.customer_managed_encryption { Some(x) => x.wf(), None => true })
    }
}


impl crate::model::replication_status::AutomaticStatusView {
    /// Whether the status and what it contains are well-formed.
    pub open spec fn wf(self) -> bool {
        (match self.customer_managed_encryption { Some(x) => x.wf(), None => true })
    }
}


impl crate::model::replication_status::UserManagedStatusView {
    /// Whether every replica status is well-formed.
    pub open spec fn wf(self) -> bool {
        (forall|i: int| 0 <= i < self.replicas.len() ==> (#[trigger] self.replicas[i]).wf())
    }
}


/// The wire entries of a replica, in schema order.
pub open spec fn enc_replica_entries(v: crate::model::replication::user_managed::ReplicaView) -> Seq<(Seq<char>, JsonView)> {
    seq![("location"@, JsonView::Str(v.location))]
        + (match v.customer_managed_encryption { Some(x) => seq![("customerManagedEncryption"@, enc_customer_managed_encryption(x))], None => Seq::empty() })
}

/// The wire form of a replica.
pub open spec fn enc_replica(v: crate::model::replication::user_managed::ReplicaView) -> JsonView {
    JsonView::Obj(enc_replica_entries(v))
}

/// One decoding step of a replica: a known key fills its field, null
/// counts as absent, an unknown key is skipped.
pub open spec fn dec_replica_field(acc: crate::model::replication::user_managed::ReplicaView, key: Seq<char>, val: JsonView) -> Option<crate::model::replication::user_managed::ReplicaView> {
    if key == "location"@ {
        if val is Null {
            Some(acc)
        } else {
            match field_str(val) {
                Some(s) => Some(crate::model::replication::user_managed::ReplicaView { location: s, ..acc }),
                None => None,
            }
        }
    } else if key == "customerManagedEncryption"@ {
        if val is Null {
            Some(acc)
        } else {
            match dec_customer_managed_encryption(val) {
                Some(x) => Some(crate::model::replication::user_managed::ReplicaView { customer_managed_encryption: Some(x), ..acc }),
                None => None,
            }
        }
    } else {
        Some(acc)
    }
}

/// Decoding over the entries of a replica, entry by entry.
pub open spec fn dec_replica_entries(es: Seq<(Seq<char>, JsonView)>, acc: crate::model::replication::user_managed::ReplicaView) -> Option<crate::model::replication::user_managed::ReplicaView>
    decreases es.len(),
{
    if es.len() == 0 {
        Some(acc)
    } else {
        match dec_replica_field(acc, es[0].0, es[0].1) {
            Some(a2) => dec_replica_entries(es.skip(1), a2),
            None => None,
        }
    }
}

/// The value of a replica a wire value denotes, starting from the default.
pub open spec fn dec_replica(j: JsonView) -> Option<crate::model::replication::user_managed::ReplicaView> {
    match j {
        JsonView::Obj(es) => dec_replica_entries(es, crate::model::replication::user_managed::ReplicaView::default_v()),
        _ => None,
    }
}

/// Decoding distributes over concatenated entry lists.
proof fn lemma_dec_replica_entries_concat(
    a: Seq<(Seq<char>, JsonView)>,
    b: Seq<(Seq<char>, JsonView)>,
    acc: crate::model::replication::user_managed::ReplicaView,
)
    ensures
        dec_replica_entries(a + b, acc) == match dec_replica_entries(a, acc) {
            Some(m) => dec_replica_entries(b, m),
            None => None::<crate::model::replication::user_managed::ReplicaView>,
        },
    decreases a.len(),
{
    if a.len() == 0 {
        assert(a + b =~= b);
    } else {
        assert((a + b)[0] == a[0]);
        match dec_replica_field(acc, a[0].0, a[0].1) {
            Some(m) => {
                lemma_dec_replica_entries_concat(a.skip(1), b, m);
                assert((a + b).skip(1) =~= a.skip(1) + b);
            },
            None => {},
        }
    }
}

/// Encodes a replica in its wire form.
pub fn encode_replica(v: &crate::model::replication::user_managed::Replica) -> (r: Json)
    requires
        v@.wf(),
    ensures
        r@ == enc_replica(v@),
{
    let ghost vv = v@;
    let mut es: Vec<(String, Json)> = Vec::new();
    let ghost mut expect: Seq<(Seq<char>, JsonView)> = Seq::empty();
    proof {
        assert(entries_view(es) =~= expect);
    }
        es.push(("location".to_owned(), Json::Str(v.location.clone())));
        proof {
            expect = expect + seq![("location"@, JsonView::Str(vv.location))];
            assert(entries_view(es) =~= expect);
        }
        match &v.customer_managed_encryption {
            Some(x) => {
                es.push(("customerManagedEncryption".to_owned(), encode_customer_managed_encryption(x)));
            },
            None => {},
        }
        proof {
            expect = expect + (match vv.customer_managed_encryption { Some(x) => seq![("customerManagedEncryption"@, enc_customer_managed_encryption(x))], None => Seq::empty() });
            assert(entries_view(es) =~= expect);
        }
    let r = Json::Obj(es);
    proof {
        lemma_obj_view(r->Obj_0);
        assert(expect =~= enc_replica_entries(vv));
    }
    r
}

/// Decodes a replica from its wire form: unknown keys are skipped, null
/// values and missing fields leave the default, and a value of the wrong
/// shape for its key is a serialization error naming the field.
pub fn decode_replica(v: &Json) -> (r: Result<crate::model::replication::user_managed::Replica, Error>)
    ensures
        match r {
            Ok(out) => dec_replica(v@) == Some(out@),
            Err(e) => dec_replica(v@) is None && e.kind == ErrorKind::Serde,
        },
{
    let es = match v {
        Json::Obj(es) => es,
        _ => {
            return Err(shape_error("Replica"));
        },
    };
    let ghost es0 = entries_view(*es);
    proof {
        lemma_obj_view(*es);
    }
    let mut out = crate::model::replication::user_managed::Replica::default();
    let mut i: usize = 0;
    proof {
        assert(es0.skip(0) =~= es0);
    }
    while i < es.len()
        invariant
            i <= es@.len(),
            es0 == entries_view(*es),
            es0.len() == es@.len(),
            v@ == JsonView::Obj(es0),
            dec_replica_entries(es0, crate::model::replication::user_managed::ReplicaView::default_v()) == dec_replica_entries(
                es0.skip(i as int),
                out@,
            ),
        decreases es@.len() - i,
    {
        let ghost pre = es0.skip(i as int);
        proof {
            assert(pre[0] == es0[i as int]);
            assert(es0[i as int] == (es@[i as int].0@, es@[i as int].1@));
            assert(pre.skip(1) =~= es0.skip(i as int + 1));
        }
        let key = &es[i].0;
        let val = &es[i].1;
        if str_eq(key.as_str(), "location") {
                if let Json::Null = val {
                } else {
                    match jv_str(val) {
                    Ok(x) => {
                        out = crate::model::replication::user_managed::Replica { location: x, ..out };
                    },
                    Err(_) => {
                        return Err(field_error("Replica", "location"));
                    },
                }
                }
            } else if str_eq(key.as_str(), "customerManagedEncryption") {
                if let Json::Null = val {
                } else {
                    match decode_customer_managed_encryption(val) {
                    Ok(x) => {
                        out = crate::model::replication::user_managed::Replica { customer_managed_encryption: Some(x), ..out };
                    },
                    Err(e) => {
                        return Err(e);
                    },
                }
                }
            }
        i += 1;
    }
    proof {
        assert(es0.skip(i as int).len() == 0);
    }
    Ok(out)
}

/// Law: a replica survives the wire: decoding its encoding gives back the
/// same value, field for field.
pub proof fn lemma_replica_round_trip(v: crate::model::replication::user_managed::ReplicaView)
    requires
        v.wf(),
    ensures
        dec_replica(enc_replica(v)) == Some(v),
{
    reveal_strlit("location");
    reveal_strlit("customerManagedEncryption");
    assert(("location"@).len() == 8);
    assert(("customerManagedEncryption"@).len() == 25);
    assert("location"@ != "customerManagedEncryption"@);
    let a0 = crate::model::replication::user_managed::ReplicaView::default_v();
    let s1 = seq![("location"@, JsonView::Str(v.location))];
    let s2 = (match v.customer_managed_encryption { Some(x) => seq![("customerManagedEncryption"@, enc_customer_managed_encryption(x))], None => Seq::empty() });
    let t2 = s2;
    let t1 = s1 + t2;
    assert(enc_replica_entries(v) =~= t1);
    let a1 = crate::model::replication::user_managed::ReplicaView { location: v.location, ..a0 };
    let a2 = crate::model::replication::user_managed::ReplicaView { customer_managed_encryption: v.customer_managed_encryption, ..a1 };
    {
        assert(dec_replica_field(a0, "location"@, JsonView::Str(v.location)) == Some(a1));
        assert(s1.len() == 1);
        assert(s1.skip(1).len() == 0);
        assert(dec_replica_entries(s1.skip(1), a1) == Some(a1));
        assert(dec_replica_entries(s1, a0) == Some(a1));
    }
    match v.customer_managed_encryption {
        Some(x) => {
            lemma_customer_managed_encryption_round_trip(x);
            assert(dec_replica_field(a1, "customerManagedEncryption"@, enc_customer_managed_encryption(x)) == Some(a2));
        assert(s2.len() == 1);
        assert(s2.skip(1).len() == 0);
        assert(dec_replica_entries(s2.skip(1), a2) == Some(a2));
        assert(dec_replica_entries(s2, a1) == Some(a2));
        },
        None => {
            assert(s2.len() == 0);
            assert(a2 == a1);
            assert(dec_replica_entries(s2, a1) == Some(a2));
        },
    }
    lemma_dec_replica_entries_concat(s1, t2, a0);
    assert(dec_replica_entries(t1, a0) == dec_replica_entries(t2, a1));
    assert(dec_replica_entries(t2, a1) == Some(a2));
    assert(a2 == v);
    assert(dec_replica_entries(enc_replica_entries(v), a0) == Some(v));
}

/// Decodes each element of an array as this record; any failing element
/// fails the array.
pub open spec fn dec_replica_arr(items: Seq<JsonView>) -> Option<Seq<crate::model::replication::user_managed::ReplicaView>>
    decreases items.len(),
{
    if items.len() == 0 {
        Some(Seq::empty())
    } else {
        match dec_replica(items[0]) {
            Some(x) => match dec_replica_arr(items.skip(1)) {
                Some(rest) => Some(seq![x] + rest),
                None => None,
            },
            None => None,
        }
    }
}

/// The view of an executable list of these records.
pub open spec fn replica_vec_view(xs: Vec<crate::model::replication::user_managed::Replica>) -> Seq<crate::model::replication::user_managed::ReplicaView> {
    Seq::new(xs@.len(), |i: int| xs@[i]@)
}

/// An encoded array of well-formed records decodes to the same records.
pub proof fn lemma_replica_arr_round_trip(vs: Seq<crate::model::replication::user_managed::ReplicaView>)
    requires
        forall|i: int| 0 <= i < vs.len() ==> (#[trigger] vs[i]).wf(),
    ensures
        dec_replica_arr(Seq::new(vs.len(), |i: int| enc_replica(vs[i]))) == Some(vs),
    decreases vs.len(),
{
    let items = Seq::new(vs.len(), |i: int| enc_replica(vs[i]));
    if vs.len() == 0 {
        assert(vs =~= Seq::<crate::model::replication::user_managed::ReplicaView>::empty());
    } else {
        assert(vs[0].wf());
        lemma_replica_round_trip(vs[0]);
        assert(items[0] == enc_replica(vs[0]));
        lemma_replica_arr_round_trip(vs.skip(1));
        assert(items.skip(1) =~= Seq::new(vs.skip(1).len(), |i: int| enc_replica(vs.skip(1)[i])));
        assert(seq![vs[0]] + vs.skip(1) =~= vs);
    }
}

/// Decodes an array of these records.
fn decode_replica_vec(items: &Vec<Json>) -> (r: Result<Vec<crate::model::replication::user_managed::Replica>, Error>)
    ensures
        match r {
            Ok(xs) => dec_replica_arr(items_view(*items)) == Some(replica_vec_view(xs)),
            Err(e) => dec_replica_arr(items_view(*items)) is None && e.kind == ErrorKind::Serde,
        },
{
    let ghost iv = items_view(*items);
    let mut xs: Vec<crate::model::replication::user_managed::Replica> = Vec::new();
    let mut k: usize = 0;
    proof {
        assert(iv.skip(0) =~= iv);
        assert(replica_vec_view(xs) =~= Seq::<crate::model::replication::user_managed::ReplicaView>::empty());
    }
    while k < items.len()
        invariant
            k <= items@.len(),
            iv == items_view(*items),
            iv.len() == items@.len(),
            dec_replica_arr(iv) == (match dec_replica_arr(iv.skip(k as int)) {
                Some(rest) => Some(replica_vec_view(xs) + rest),
                None => None::<Seq<crate::model::replication::user_managed::ReplicaView>>,
            }),
        decreases items@.len() - k,
    {
        proof {
            assert(iv.skip(k as int)[0] == iv[k as int]);
            assert(iv[k as int] == items@[k as int]@);
            assert(iv.skip(k as int).skip(1) =~= iv.skip(k as int + 1));
        }
        match decode_replica(&items[k]) {
            Ok(x) => {
                let ghost xs0 = replica_vec_view(xs);
                xs.push(x);
                proof {
                    assert(replica_vec_view(xs) =~= xs0 + seq![x@]);
                    match dec_replica_arr(iv.skip(k as int + 1)) {
                        Some(rest) => {
                            assert((xs0 + seq![x@]) + rest =~= xs0 + (seq![x@] + rest));
                        },
                        None => {},
                    }
                }
            },
            Err(e) => {
                return Err(e);
            },
        }
        k += 1;
    }
    proof {
        assert(iv.skip(k as int).len() == 0);
        assert(replica_vec_view(xs) + Seq::<crate::model::replication::user_managed::ReplicaView>::empty() =~= replica_vec_view(xs));
    }
    Ok(xs)
}

/// The wire entries of an automatic replication policy, in schema order.
pub open spec fn enc_automatic_entries(v: crate::model::replication::AutomaticView) -> Seq<(Seq<char>, JsonView)> {
    (match v.customer_managed_encryption { Some(x) => seq![("customerManagedEncryption"@, enc_customer_managed_encryption(x))], None => Seq::empty() })
}

/// The wire form of an automatic replication policy.
pub open spec fn enc_automatic(v: crate::model::replication::AutomaticView) -> JsonView {
    JsonView::Obj(enc_automatic_entries(v))
}

/// One decoding step of an automatic replication policy: a known key fills its field, null
/// counts as absent, an unknown key is skipped.
pub open spec fn dec_automatic_field(acc: crate::model::replication::AutomaticView, key: Seq<char>, val: JsonView) -> Option<crate::model::replication::AutomaticView> {
    if key == "customerManagedEncryption"@ {
        if val is Null {
            Some(acc)
        } else {
            match dec_customer_managed_encryption(val) {
                Some(x) => Some(crate::model::replication::AutomaticView { customer_managed_encryption: Some(x), ..acc }),
                None => None,
            }
        }
    } else {
        Some(acc)
    }
}

/// Decoding over the entries of an automatic replication policy, entry by entry.
pub open spec fn dec_automatic_entries(es: Seq<(Seq<char>, JsonView)>, acc: crate::model::replication::AutomaticView) -> Option<crate::model::replication::AutomaticView>
    decreases es.len(),
{
    if es.len() == 0 {
        Some(acc)
    } else {
        match dec_automatic_field(acc, es[0].0, es[0].1) {
            Some(a2) => dec_automatic_entries(es.skip(1), a2),
            None => None,
        }
    }
}

/// The value of an automatic replication policy a wire value denotes, starting from the default.
pub open spec fn dec_automatic(j: JsonView) -> Option<crate::model::replication::AutomaticView> {
    match j {
        JsonView::Obj(es) => dec_automatic_entries(es, crate::model::replication::AutomaticView::default_v()),
        _ => None,
    }
}

/// Decoding distributes over concatenated entry lists.
proof fn lemma_dec_automatic_entries_concat(
    a: Seq<(Seq<char>, JsonView)>,
    b: Seq<(Seq<char>, JsonView)>,
    acc: crate::model::replication::AutomaticView,
)
    ensures
        dec_automatic_entries(a + b, acc) == match dec_automatic_entries(a, acc) {
            Some(m) => dec_automatic_entries(b, m),
            None => None::<crate::model::replication::AutomaticView>,
        },
    decreases a.len(),
{
    if a.len() == 0 {
        assert(a + b =~= b);
    } else {
        assert((a + b)[0] == a[0]);
        match dec_automatic_field(acc, a[0].0, a[0].1) {
            Some(m) => {
                lemma_dec_automatic_entries_concat(a.skip(1), b, m);
                assert((a + b).skip(1) =~= a.skip(1) + b);
            },
            None => {},
        }
    }
}

/// Encodes an automatic replication policy in its wire form.
pub fn encode_automatic(v: &crate::model::replication::Automatic) -> (r: Json)
    requires
        v@.wf(),
    ensures
        r@ == enc_automatic(v@),
{
    let ghost vv = v@;
    let mut es: Vec<(String, Json)> = Vec::new();
    let ghost mut expect: Seq<(Seq<char>, JsonView)> = Seq::empty();
    proof {
        assert(entries_view(es) =~= expect);
    }
        match &v.customer_managed_encryption {
            Some(x) => {
                es.push(("customerManagedEncryption".to_owned(), encode_customer_managed_encryption(x)));
            },
            None => {},
        }
        proof {
            expect = expect + (match vv.customer_managed_encryption { Some(x) => seq![("customerManagedEncryption"@, enc_customer_managed_encryption(x))], None => Seq::empty() });
            assert(entries_view(es) =~= expect);
        }
    let r = Json::Obj(es);
    proof {
        lemma_obj_view(r->Obj_0);
        assert(expect =~= enc_automatic_entries(vv));
    }
    r
}

/// Decodes an automatic replication policy from its wire form: unknown keys are skipped, null
/// values and missing fields leave the default, and a value of the wrong
/// shape for its key is a serialization error naming the field.
pub fn decode_automatic(v: &Json) -> (r: Result<crate::model::replication::Automatic, Error>)
    ensures
        match r {
            Ok(out) => dec_automatic(v@) == Some(out@),
            Err(e) => dec_automatic(v@) is None && e.kind == ErrorKind::Serde,
        },
{
    let es = match v {
        Json::Obj(es) => es,
        _ => {
            return Err(shape_error("Automatic"));
        },
    };
    let ghost es0 = entries_view(*es);
    proof {
        lemma_obj_view(*es);
    }
    let mut out = crate::model::replication::Automatic::default();
    let mut i: usize = 0;
    proof {
        assert(es0.skip(0) =~= es0);
    }
    while i < es.len()
        invariant
            i <= es@.len(),
            es0 == entries_view(*es),
            es0.len() == es@.len(),
            v@ == JsonView::Obj(es0),
            dec_automatic_entries(es0, crate::model::replication::AutomaticView::default_v()) == dec_automatic_entries(
                es0.skip(i as int),
                out@,
            ),
        decreases es@.len() - i,
    {
        let ghost pre = es0.skip(i as int);
        proof {
            assert(pre[0] == es0[i as int]);
            assert(es0[i as int] == (es@[i as int].0@, es@[i as int].1@));
            assert(pre.skip(1) =~= es0.skip(i as int + 1));
        }
        let key = &es[i].0;
        let val = &es[i].1;
        if str_eq(key.as_str(), "customerManagedEncryption") {
                if let Json::Null = val {
                } else {
                    match decode_customer_managed_encryption(val) {
                    Ok(x) => {
                        out = crate::model::replication::Automatic { customer_managed_encryption: Some(x), ..out };
                    },
                    Err(e) => {
                        return Err(e);
                    },
                }
                }
            }
        i += 1;
    }
    proof {
        assert(es0.skip(i as int).len() == 0);
    }
    Ok(out)
}

/// Law: an automatic replication policy survives the wire: decoding its encoding gives back the
/// same value, field for field.
pub proof fn lemma_automatic_round_trip(v: crate::model::replication::AutomaticView)
    requires
        v.wf(),
    ensures
        dec_automatic(enc_automatic(v)) == Some(v),
{
    reveal_strlit("customerManagedEncryption");
    assert(("customerManagedEncryption"@).len() == 25);
    let a0 = crate::model::replication::AutomaticView::default_v();
    let s1 = (match v.customer_managed_encryption { Some(x) => seq![("customerManagedEncryption"@, enc_customer_managed_encryption(x))], None => Seq::empty() });
    let t1 = s1;
    assert(enc_automatic_entries(v) =~= t1);
    let a1 = crate::model::replication::AutomaticView { customer_managed_encryption: v.customer_managed_encryption, ..a0 };
    match v.customer_managed_encryption {
        Some(x) => {
            lemma_customer_managed_encryption_round_trip(x);
            assert(dec_automatic_field(a0, "customerManagedEncryption"@, enc_customer_managed_encryption(x)) == Some(a1));
        assert(s1.len() == 1);
        assert(s1.skip(1).len() == 0);
        assert(dec_automatic_entries(s1.skip(1), a1) == Some(a1));
        assert(dec_automatic_entries(s1, a0) == Some(a1));
        },
        None => {
            assert(s1.len() == 0);
            assert(a1 == a0);
            assert(dec_automatic_entries(s1, a0) == Some(a1));
        },
    }

    assert(dec_automatic_entries(t1, a0) == Some(a1));
    assert(a1 == v);
    assert(dec_automatic_entries(enc_automatic_entries(v), a0) == Some(v));
}

/// The wire entries of a user-managed replication policy, in schema order.
pub open spec fn enc_user_managed_entries(v: crate::model::replication::UserManagedView) -> Seq<(Seq<char>, JsonView)> {
    seq![("replicas"@, JsonView::Arr(Seq::new(v.replicas.len(), |i: int| enc_replica(v.replicas[i]))))]
}

/// The wire form of a user-managed replication policy.
pub open spec fn enc_user_managed(v: crate::model::replication::UserManagedView) -> JsonView {
    JsonView::Obj(enc_user_managed_entries(v))
}

/// One decoding step of a user-managed replication policy: a known key fills its field, null
/// counts as absent, an unknown key is skipped.
pub open spec fn dec_user_managed_field(acc: crate::model::replication::UserManagedView, key: Seq<char>, val: JsonView) -> Option<crate::model::replication::UserManagedView> {
    if key == "replicas"@ {
        if val is Null {
            Some(acc)
        } else {
            match val {
                JsonView::Arr(items) => match dec_replica_arr(items) {
                    Some(xs) => Some(crate::model::replication::UserManagedView { replicas: xs, ..acc }),
                    None => None,
                },
                _ => None,
            }
        }
    } else {
        Some(acc)
    }
}

/// Decoding over the entries of a user-managed replication policy, entry by entry.
pub open spec fn dec_user_managed_entries(es: Seq<(Seq<char>, JsonView)>, acc: crate::model::replication::UserManagedView) -> Option<crate::model::replication::UserManagedView>
    decreases es.len(),
{
    if es.len() == 0 {
        Some(acc)
    } else {
        match dec_user_managed_field(acc, es[0].0, es[0].1) {
            Some(a2) => dec_user_managed_entries(es.skip(1), a2),
            None => None,
        }
    }
}

/// The value of a user-managed replication policy a wire value denotes, starting from the default.
pub open spec fn dec_user_managed(j: JsonView) -> Option<crate::model::replication::UserManagedView> {
    match j {
        JsonView::Obj(es) => dec_user_managed_entries(es, crate::model::replication::UserManagedView::default_v()),
        _ => None,
    }
}

/// Decoding distributes over concatenated entry lists.
proof fn lemma_dec_user_managed_entries_concat(
    a: Seq<(Seq<char>, JsonView)>,
    b: Seq<(Seq<char>, JsonView)>,
    acc: crate::model::replication::UserManagedView,
)
    ensures
        dec_user_managed_entries(a + b, acc) == match dec_user_managed_entries(a, acc) {
            Some(m) => dec_user_managed_entries(b, m),
            None => None::<crate::model::replication::UserManagedView>,
        },
    decreases a.len(),
{
    if a.len() == 0 {
        assert(a + b =~= b);
    } else {
        assert((a + b)[0] == a[0]);
        match dec_user_managed_field(acc, a[0].0, a[0].1) {
            Some(m) => {
                lemma_dec_user_managed_entries_concat(a.skip(1), b, m);
                assert((a + b).skip(1) =~= a.skip(1) + b);
            },
            None => {},
        }
    }
}

/// Encodes a user-managed replication policy in its wire form.
pub fn encode_user_managed(v: &crate::model::replication::UserManaged) -> (r: Json)
    requires
        v@.wf(),
    ensures
        r@ == enc_user_managed(v@),
{
    let ghost vv = v@;
    let mut es: Vec<(String, Json)> = Vec::new();
    let ghost mut expect: Seq<(Seq<char>, JsonView)> = Seq::empty();
    proof {
        assert(entries_view(es) =~= expect);
    }
        {
            let mut items: Vec<Json> = Vec::new();
            let mut i: usize = 0;
            while i < v.replicas.len()
                invariant
                    i <= v.replicas@.len(),
                    vv == v@,
                    items@.len() == i as int,
                    forall|j: int| 0 <= j < i ==> items@[j]@ == enc_replica(#[trigger] vv.replicas[j]),
                decreases v.replicas@.len() - i,
            {
                items.push(encode_replica(&v.replicas[i]));
                i += 1;
            }
            proof {
                lemma_arr_view(items);
                assert(items_view(items) =~= Seq::new(vv.replicas.len(), |i: int| enc_replica(vv.replicas[i])));
            }
            es.push(("replicas".to_owned(), Json::Arr(items)));
        }
        proof {
            expect = expect + seq![("replicas"@, JsonView::Arr(Seq::new(vv.replicas.len(), |i: int| enc_replica(vv.replicas[i]))))];
            assert(entries_view(es) =~= expect);
        }
    let r = Json::Obj(es);
    proof {
        lemma_obj_view(r->Obj_0);
        assert(expect =~= enc_user_managed_entries(vv));
    }
    r
}

/// Decodes a user-managed replication policy from its wire form: unknown keys are skipped, null
/// values and missing fields leave the default, and a value of the wrong
/// shape for its key is a serialization error naming the field.
pub fn decode_user_managed(v: &Json) -> (r: Result<crate::model::replication::UserManaged, Error>)
    ensures
        match r {
            Ok(out) => dec_user_managed(v@) == Some(out@),
            Err(e) => dec_user_managed(v@) is None && e.kind == ErrorKind::Serde,
        },
{
    let es = match v {
        Json::Obj(es) => es,
        _ => {
            return Err(shape_error("UserManaged"));
        },
    };
    let ghost es0 = entries_view(*es);
    proof {
        lemma_obj_view(*es);
    }
    let mut out = crate::model::replication::UserManaged::default();
    let mut i: usize = 0;
    proof {
        assert(es0.skip(0) =~= es0);
    }
    while i < es.len()
        invariant
            i <= es@.len(),
            es0 == entries_view(*es),
            es0.len() == es@.len(),
            v@ == JsonView::Obj(es0),
            dec_user_managed_entries(es0, crate::model::replication::UserManagedView::default_v()) == dec_user_managed_entries(
                es0.skip(i as int),
                out@,
            ),
        decreases es@.len() - i,
    {
        let ghost pre = es0.skip(i as int);
        proof {
            assert(pre[0] == es0[i as int]);
            assert(es0[i as int] == (es@[i as int].0@, es@[i as int].1@));
            assert(pre.skip(1) =~= es0.skip(i as int + 1));
        }
        let key = &es[i].0;
        let val = &es[i].1;
        if str_eq(key.as_str(), "replicas") {
                if let Json::Null = val {
                } else {
                    match val {
                    Json::Arr(items) => {
                        proof {
                            lemma_arr_view(*items);
                        }
                        match decode_replica_vec(items) {
                            Ok(xs) => {
                                out = crate::model::replication::UserManaged { replicas: xs, ..out };
                            },
                            Err(e) => {
                                return Err(e);
                            },
                        }
                    },
                    _ => {
                        return Err(field_error("UserManaged", "replicas"));
                    },
                }
                }
            }
        i += 1;
    }
    proof {
        assert(es0.skip(i as int).len() == 0);
    }
    Ok(out)
}

/// Law: a user-managed replication policy survives the wire: decoding its encoding gives back the
/// same value, field for field.
pub proof fn lemma_user_managed_round_trip(v: crate::model::replication::UserManagedView)
    requires
        v.wf(),
    ensures
        dec_user_managed(enc_user_managed(v)) == Some(v),
{
    reveal_strlit("replicas");
    assert(("replicas"@).len() == 8);
    let a0 = crate::model::replication::UserManagedView::default_v();
    let s1 = seq![("replicas"@, JsonView::Arr(Seq::new(v.replicas.len(), |i: int| enc_replica(v.replicas[i]))))];
    let t1 = s1;
    assert(enc_user_managed_entries(v) =~= t1);
    let a1 = crate::model::replication::UserManagedView { replicas: v.replicas, ..a0 };
    {
        lemma_replica_arr_round_trip(v.replicas);
        assert(dec_user_managed_field(a0, "replicas"@, JsonView::Arr(Seq::new(v.replicas.len(), |i: int| enc_replica(v.replicas[i])))) == Some(a1));
        assert(s1.len() == 1);
        assert(s1.skip(1).len() == 0);
        assert(dec_user_managed_entries(s1.skip(1), a1) == Some(a1));
        assert(dec_user_managed_entries(s1, a0) == Some(a1));
    }

    assert(dec_user_managed_entries(t1, a0) == Some(a1));
    assert(a1 == v);
    assert(dec_user_managed_entries(enc_user_managed_entries(v), a0) == Some(v));
}

/// The wire entries of a replica status, in schema order.
pub open spec fn enc_replica_status_entries(v: crate::model::replication_status::user_managed_status::ReplicaStatusView) -> Seq<(Seq<char>, JsonView)> {
    seq![("location"@, JsonView::Str(v.location))]
        + (match v.customer_managed_encryption { Some(x) => seq![("customerManagedEncryption"@, enc_customer_managed_encryption_status(x))], None => Seq::empty() })
}

/// The wire form of a replica status.
pub open spec fn enc_replica_status(v: crate::model::replication_status::user_managed_status::ReplicaStatusView) -> JsonView {
    JsonView::Obj(enc_replica_status_entries(v))
}

/// One decoding step of a replica status: a known key fills its field, null
/// counts as absent, an unknown key is skipped.
pub open spec fn dec_replica_status_field(acc: crate::model::replication_status::user_managed_status::ReplicaStatusView, key: Seq<char>, val: JsonView) -> Option<crate::model::replication_status::user_managed_status::ReplicaStatusView> {
    if key == "location"@ {
        if val is Null {
            Some(acc)
        } else {
            match field_str(val) {
                Some(s) => Some(crate::model::replication_status::user_managed_status::ReplicaStatusView { location: s, ..acc }),
                None => None,
            }
        }
    } else if key == "customerManagedEncryption"@ {
        if val is Null {
            Some(acc)
        } else {
            match dec_customer_managed_encryption_status(val) {
                Some(x) => Some(crate::model::replication_status::user_managed_status::ReplicaStatusView { customer_managed_encryption: Some(x), ..acc }),
                None => None,
            }
        }
    } else {
        Some(acc)
    }
}

/// Decoding over the entries of a replica status, entry by entry.
pub open spec fn dec_replica_status_entries(es: Seq<(Seq<char>, JsonView)>, acc: crate::model::replication_status::user_managed_status::ReplicaStatusView) -> Option<crate::model::replication_status::user_managed_status::ReplicaStatusView>
    decreases es.len(),
{
    if es.len() == 0 {
        Some(acc)
    } else {
        match dec_replica_status_field(acc, es[0].0, es[0].1) {
            Some(a2) => dec_replica_status_entries(es.skip(1), a2),
            None => None,
        }
    }
}

/// The value of a replica status a wire value denotes, starting from the default.
pub open spec fn dec_replica_status(j: JsonView) -> Option<crate::model::replication_status::user_managed_status::ReplicaStatusView> {
    match j {
        JsonView::Obj(es) => dec_replica_status_entries(es, crate::model::replication_status::user_managed_status::ReplicaStatusView::default_v()),
        _ => None,
    }
}

/// Decoding distributes over concatenated entry lists.
proof fn lemma_dec_replica_status_entries_concat(
    a: Seq<(Seq<char>, JsonView)>,
    b: Seq<(Seq<char>, JsonView)>,
    acc: crate::model::replication_status::user_managed_status::ReplicaStatusView,
)
    ensures
        dec_replica_status_entries(a + b, acc) == match dec_replica_status_entries(a, acc) {
            Some(m) => dec_replica_status_entries(b, m),
            None => None::<crate::model::replication_status::user_managed_status::ReplicaStatusView>,
        },
    decreases a.len(),
{
    if a.len() == 0 {
        assert(a + b =~= b);
    } else {
        assert((a + b)[0] == a[0]);
        match dec_replica_status_field(acc, a[0].0, a[0].1) {
            Some(m) => {
                lemma_dec_replica_status_entries_concat(a.skip(1), b, m);
                assert((a + b).skip(1) =~= a.skip(1) + b);
            },
            None => {},
        }
    }
}

/// Encodes a replica status in its wire form.
pub fn encode_replica_status(v: &crate::model::replication_status::user_managed_status::ReplicaStatus) -> (r: Json)
    requires
        v@.wf(),
    ensures
        r@ == enc_replica_status(v@),
{
    let ghost vv = v@;
    let mut es: Vec<(String, Json)> = Vec::new();
    let ghost mut expect: Seq<(Seq<char>, JsonView)> = Seq::empty();
    proof {
        assert(entries_view(es) =~= expect);
    }
        es.push(("location".to_owned(), Json::Str(v.location.clone())));
        proof {
            expect = expect + seq![("location"@, JsonView::Str(vv.location))];
            assert(entries_view(es) =~= expect);
        }
        match &v.customer_managed_encryption {
            Some(x) => {
                es.push(("customerManagedEncryption".to_owned(), encode_customer_managed_encryption_status(x)));
            },
            None => {},
        }
        proof {
            expect = expect + (match vv.customer_managed_encryption { Some(x) => seq![("customerManagedEncryption"@, enc_customer_managed_encryption_status(x))], None => Seq::empty() });
            assert(entries_view(es) =~= expect);
        }
    let r = Json::Obj(es);
    proof {
        lemma_obj_view(r->Obj_0);
        assert(expect =~= enc_replica_status_entries(vv));
    }
    r
}

/// Decodes a replica status from its wire form: unknown keys are skipped, null
/// values and missing fields leave the default, and a value of the wrong
/// shape for its key is a serialization error naming the field.
pub fn decode_replica_status(v: &Json) -> (r: Result<crate::model::replication_status::user_managed_status::ReplicaStatus, Error>)
    ensures
        match r {
            Ok(out) => dec_replica_status(v@) == Some(out@),
            Err(e) => dec_replica_status(v@) is None && e.kind == ErrorKind::Serde,
        },
{
    let es = match v {
        Json::Obj(es) => es,
        _ => {
            return Err(shape_error("ReplicaStatus"));
        },
    };
    let ghost es0 = entries_view(*es);
    proof {
        lemma_obj_view(*es);
    }
    let mut out = crate::model::replication_status::user_managed_status::ReplicaStatus::default();
    let mut i: usize = 0;
    proof {
        assert(es0.skip(0) =~= es0);
    }
    while i < es.len()
        invariant
            i <= es@.len(),
            es0 == entries_view(*es),
            es0.len() == es@.len(),
            v@ == JsonView::Obj(es0),
            dec_replica_status_entries(es0, crate::model::replication_status::user_managed_status::ReplicaStatusView::default_v()) == dec_replica_status_entries(
                es0.skip(i as int),
                out@,
            ),
        decreases es@.len() - i,
    {
        let ghost pre = es0.skip(i as int);
        proof {
            assert(pre[0] == es0[i as int]);
            assert(es0[i as int] == (es@[i as int].0@, es@[i as int].1@));
            assert(pre.skip(1) =~= es0.skip(i as int + 1));
        }
        let key = &es[i].0;
        let val = &es[i].1;
        if str_eq(key.as_str(), "location") {
                if let Json::Null = val {
                } else {
                    match jv_str(val) {
                    Ok(x) => {
                        out = crate::model::replication_status::user_managed_status::ReplicaStatus { location: x, ..out };
                    },
                    Err(_) => {
                        return Err(field_error("ReplicaStatus", "location"));
                    },
                }
                }
            } else if str_eq(key.as_str(), "customerManagedEncryption") {
                if let Json::Null = val {
                } else {
                    match decode_customer_managed_encryption_status(val) {
                    Ok(x) => {
                        out = crate::model::replication_status::user_managed_status::ReplicaStatus { customer_managed_encryption: Some(x), ..out };
                    },
                    Err(e) => {
                        return Err(e);
                    },
                }
                }
            }
        i += 1;
    }
    proof {
        assert(es0.skip(i as int).len() == 0);
    }
    Ok(out)
}

/// Law: a replica status survives the wire: decoding its encoding gives back the
/// same value, field for field.
pub proof fn lemma_replica_status_round_trip(v: crate::model::replication_status::user_managed_status::ReplicaStatusView)
    requires
        v.wf(),
    ensures
        dec_replica_status(enc_replica_status(v)) == Some(v),
{
    reveal_strlit("location");
    reveal_strlit("customerManagedEncryption");
    assert(("location"@).len() == 8);
    assert(("customerManagedEncryption"@).len() == 25);
    assert("location"@ != "customerManagedEncryption"@);
    let a0 = crate::model::replication_status::user_managed_status::ReplicaStatusView::default_v();
    let s1 = seq![("location"@, JsonView::Str(v.location))];
    let s2 = (match v.customer_managed_encryption { Some(x) => seq![("customerManagedEncryption"@, enc_customer_managed_encryption_status(x))], None => Seq::empty() });
    let t2 = s2;
    let t1 = s1 + t2;
    assert(enc_replica_status_entries(v) =~= t1);
    let a1 = crate::model::replication_status::user_managed_status::ReplicaStatusView { location: v.location, ..a0 };
    let a2 = crate::model::replication_status::user_managed_status::ReplicaStatusView { customer_managed_encryption: v.customer_managed_encryption, ..a1 };
    {
        assert(dec_replica_status_field(a0, "location"@, JsonView::Str(v.location)) == Some(a1));
        assert(s1.len() == 1);
        assert(s1.skip(1).len() == 0);
        assert(dec_replica_status_entries(s1.skip(1), a1) == Some(a1));
        assert(dec_replica_status_entries(s1, a0) == Some(a1));
    }
    match v.customer_managed_encryption {
        Some(x) => {
            lemma_customer_managed_encryption_status_round_trip(x);
            assert(dec_replica_status_field(a1, "customerManagedEncryption"@, enc_customer_managed_encryption_status(x)) == Some(a2));
        assert(s2.len() == 1);
        assert(s2.skip(1).len() == 0);
        assert(dec_replica_status_entries(s2.skip(1), a2) == Some(a2));
        assert(dec_replica_status_entries(s2, a1) == Some(a2));
        },
        None => {
            assert(s2.len() == 0);
            assert(a2 == a1);
            assert(dec_replica_status_entries(s2, a1) == Some(a2));
        },
    }
    lemma_dec_replica_status_entries_concat(s1, t2, a0);
    assert(dec_replica_status_entries(t1, a0) == dec_replica_status_entries(t2, a1));
    assert(dec_replica_status_entries(t2, a1) == Some(a2));
    assert(a2 == v);
    assert(dec_replica_status_entries(enc_replica_status_entries(v), a0) == Some(v));
}

/// Decodes each element of an array as this record; any failing element
/// fails the array.
pub open spec fn dec_replica_status_arr(items: Seq<JsonView>) -> Option<Seq<crate::model::replication_status::user_managed_status::ReplicaStatusView>>
    decreases items.len(),
{
    if items.len() == 0 {
        Some(Seq::empty())
    } else {
        match dec_replica_status(items[0]) {
            Some(x) => match dec_replica_status_arr(items.skip(1)) {
                Some(rest) => Some(seq![x] + rest),
                None => None,
            },
            None => None,
        }
    }
}

/// The view of an executable list of these records.
pub open spec fn replica_status_vec_view(xs: Vec<crate::model::replication_status::user_managed_status::ReplicaStatus>) -> Seq<crate::model::replication_status::user_managed_status::ReplicaStatusView> {
    Seq::new(xs@.len(), |i: int| xs@[i]@)
}

/// An encoded array of well-formed records decodes to the same records.
pub proof fn lemma_replica_status_arr_round_trip(vs: Seq<crate::model::replication_status::user_managed_status::ReplicaStatusView>)
    requires
        forall|i: int| 0 <= i < vs.len() ==> (#[trigger] vs[i]).wf(),
    ensures
        dec_replica_status_arr(Seq::new(vs.len(), |i: int| enc_replica_status(vs[i]))) == Some(vs),
    decreases vs.len(),
{
    let items = Seq::new(vs.len(), |i: int| enc_replica_status(vs[i]));
    if vs.len() == 0 {
        assert(vs =~= Seq::<crate::model::replication_status::user_managed_status::ReplicaStatusView>::empty());
    } else {
        assert(vs[0].wf());
        lemma_replica_status_round_trip(vs[0]);
        assert(items[0] == enc_replica_status(vs[0]));
        lemma_replica_status_arr_round_trip(vs.skip(1));
        assert(items.skip(1) =~= Seq::new(vs.skip(1).len(), |i: int| enc_replica_status(vs.skip(1)[i])));
        assert(seq![vs[0]] + vs.skip(1) =~= vs);
    }
}

/// Decodes an array of these records.
fn decode_replica_status_vec(items: &Vec<Json>) -> (r: Result<Vec<crate::model::replication_status::user_managed_status::ReplicaStatus>, Error>)
    ensures
        match r {
            Ok(xs) => dec_replica_status_arr(items_view(*items)) == Some(replica_status_vec_view(xs)),
            Err(e) => dec_replica_status_arr(items_view(*items)) is None && e.kind == ErrorKind::Serde,
        },
{
    let ghost iv = items_view(*items);
    let mut xs: Vec<crate::model::replication_status::user_managed_status::ReplicaStatus> = Vec::new();
    let mut k: usize = 0;
    proof {
        assert(iv.skip(0) =~= iv);
        assert(replica_status_vec_view(xs) =~= Seq::<crate::model::replication_status::user_managed_status::ReplicaStatusView>::empty());
    }
    while k < items.len()
        invariant
            k <= items@.len(),
            iv == items_view(*items),
            iv.len() == items@.len(),
            dec_replica_status_arr(iv) == (match dec_replica_status_arr(iv.skip(k as int)) {
                Some(rest) => Some(replica_status_vec_view(xs) + rest),
                None => None::<Seq<crate::model::replication_status::user_managed_status::ReplicaStatusView>>,
            }),
        decreases items@.len() - k,
    {
        proof {
            assert(iv.skip(k as int)[0] == iv[k as int]);
            assert(iv[k as int] == items@[k as int]@);
            assert(iv.skip(k as int).skip(1) =~= iv.skip(k as int + 1));
        }
        match decode_replica_status(&items[k]) {
            Ok(x) => {
                let ghost xs0 = replica_status_vec_view(xs);
                xs.push(x);
                proof {
                    assert(replica_status_vec_view(xs) =~= xs0 + seq![x@]);
                    match dec_replica_status_arr(iv.skip(k as int + 1)) {
                        Some(rest) => {
                            assert((xs0 + seq![x@]) + rest =~= xs0 + (seq![x@] + rest));
                        },
                        None => {},
                    }
                }
            },
            Err(e) => {
                return Err(e);
            },
        }
        k += 1;
    }
    proof {
        assert(iv.skip(k as int).len() == 0);
        assert(replica_status_vec_view(xs) + Seq::<crate::model::replication_status::user_managed_status::ReplicaStatusView>::empty() =~= replica_status_vec_view(xs));
    }
    Ok(xs)
}

/// The wire entries of an automatic replication status, in schema order.
pub open spec fn enc_automatic_status_entries(v: crate::model::replication_status::AutomaticStatusView) -> Seq<(Seq<char>, JsonView)> {
    (match v.customer_managed_encryption { Some(x) => seq![("customerManagedEncryption"@, enc_customer_managed_encryption_status(x))], None => Seq::empty() })
}

/// The wire form of an automatic replication status.
pub open spec fn enc_automatic_status(v: crate::model::replication_status::AutomaticStatusView) -> JsonView {
    JsonView::Obj(enc_automatic_status_entries(v))
}

/// One decoding step of an automatic replication status: a known key fills its field, null
/// counts as absent, an unknown key is skipped.
pub open spec fn dec_automatic_status_field(acc: crate::model::replication_status::AutomaticStatusView, key: Seq<char>, val: JsonView) -> Option<crate::model::replication_status::AutomaticStatusView> {
    if key == "customerManagedEncryption"@ {
        if val is Null {
            Some(acc)
        } else {
            match dec_customer_managed_encryption_status(val) {
                Some(x) => Some(crate::model::replication_status::AutomaticStatusView { customer_managed_encryption: Some(x), ..acc }),
                None => None,
            }
        }
    } else {
        Some(acc)
    }
}

/// Decoding over the entries of an automatic replication status, entry by entry.
pub open spec fn dec_automatic_status_entries(es: Seq<(Seq<char>, JsonView)>, acc: crate::model::replication_status::AutomaticStatusView) -> Option<crate::model::replication_status::AutomaticStatusView>
    decreases es.len(),
{
    if es.len() == 0 {
        Some(acc)
    } else {
        match dec_automatic_status_field(acc, es[0].0, es[0].1) {
            Some(a2) => dec_automatic_status_entries(es.skip(1), a2),
            None => None,
        }
    }
}

/// The value of an automatic replication status a wire value denotes, starting from the default.
pub open spec fn dec_automatic_status(j: JsonView) -> Option<crate::model::replication_status::AutomaticStatusView> {
    match j {
        JsonView::Obj(es) => dec_automatic_status_entries(es, crate::model::replication_status::AutomaticStatusView::default_v()),
        _ => None,
    }
}

/// Decoding distributes over concatenated entry lists.
proof fn lemma_dec_automatic_status_entries_concat(
    a: Seq<(Seq<char>, JsonView)>,
    b: Seq<(Seq<char>, JsonView)>,
    acc: crate::model::replication_status::AutomaticStatusView,
)
    ensures
        dec_automatic_status_entries(a + b, acc) == match dec_automatic_status_entries(a, acc) {
            Some(m) => dec_automatic_status_entries(b, m),
            None => None::<crate::model::replication_status::AutomaticStatusView>,
        },
    decreases a.len(),
{
    if a.len() == 0 {
        assert(a + b =~= b);
    } else {
        assert((a + b)[0] == a[0]);
        match dec_automatic_status_field(acc, a[0].0, a[0].1) {
            Some(m) => {
                lemma_dec_automatic_status_entries_concat(a.skip(1), b, m);
                assert((a + b).skip(1) =~= a.skip(1) + b);
            },
            None => {},
        }
    }
}

/// Encodes an automatic replication status in its wire form.
pub fn encode_automatic_status(v: &crate::model::replication_status::AutomaticStatus) -> (r: Json)
    requires
        v@.wf(),
    ensures
        r@ == enc_automatic_status(v@),
{
    let ghost vv = v@;
    let mut es: Vec<(String, Json)> = Vec::new();
    let ghost mut expect: Seq<(Seq<char>, JsonView)> = Seq::empty();
    proof {
        assert(entries_view(es) =~= expect);
    }
        match &v.customer_managed_encryption {
            Some(x) => {
                es.push(("customerManagedEncryption".to_owned(), encode_customer_managed_encryption_status(x)));
            },
            None => {},
        }
        proof {
            expect = expect + (match vv.customer_managed_encryption { Some(x) => seq![("customerManagedEncryption"@, enc_customer_managed_encryption_status(x))], None => Seq::empty() });
            assert(entries_view(es) =~= expect);
        }
    let r = Json::Obj(es);
    proof {
        lemma_obj_view(r->Obj_0);
        assert(expect =~= enc_automatic_status_entries(vv));
    }
    r
}

/// Decodes an automatic replication status from its wire form: unknown keys are skipped, null
/// values and missing fields leave the default, and a value of the wrong
/// shape for its key is a serialization error naming the field.
pub fn decode_automatic_status(v: &Json) -> (r: Result<crate::model::replication_status::AutomaticStatus, Error>)
    ensures
        match r {
            Ok(out) => dec_automatic_status(v@) == Some(out@),
            Err(e) => dec_automatic_status(v@) is None && e.kind == ErrorKind::Serde,
        },
{
    let es = match v {
        Json::Obj(es) => es,
        _ => {
            return Err(shape_error("AutomaticStatus"));
        },
    };
    let ghost es0 = entries_view(*es);
    proof {
        lemma_obj_view(*es);
    }
    let mut out = crate::model::replication_status::AutomaticStatus::default();
    let mut i: usize = 0;
    proof {
        assert(es0.skip(0) =~= es0);
    }
    while i < es.len()
        invariant
            i <= es@.len(),
            es0 == entries_view(*es),
            es0.len() == es@.len(),
            v@ == JsonView::Obj(es0),
            dec_automatic_status_entries(es0, crate::model::replication_status::AutomaticStatusView::default_v()) == dec_automatic_status_entries(
                es0.skip(i as int),
                out@,
            ),
        decreases es@.len() - i,
    {
        let ghost pre = es0.skip(i as int);
        proof {
            assert(pre[0] == es0[i as int]);
            assert(es0[i as int] == (es@[i as int].0@, es@[i as int].1@));
            assert(pre.skip(1) =~= es0.skip(i as int + 1));
        }
        let key = &es[i].0;
        let val = &es[i].1;
        if str_eq(key.as_str(), "customerManagedEncryption") {
                if let Json::Null = val {
                } else {
                    match decode_customer_managed_encryption_status(val) {
                    Ok(x) => {
                        out = crate::model::replication_status::AutomaticStatus { customer_managed_encryption: Some(x), ..out };
                    },
                    Err(e) => {
                        return Err(e);
                    },
                }
                }
            }
        i += 1;
    }
    proof {
        assert(es0.skip(i as int).len() == 0);
    }
    Ok(out)
}

/// Law: an automatic replication status survives the wire: decoding its encoding gives back the
/// same value, field for field.
pub proof fn lemma_automatic_status_round_trip(v: crate::model::replication_status::AutomaticStatusView)
    requires
        v.wf(),
    ensures
        dec_automatic_status(enc_automatic_status(v)) == Some(v),
{
    reveal_strlit("customerManagedEncryption");
    assert(("customerManagedEncryption"@).len() == 25);
    let a0 = crate::model::replication_status::AutomaticStatusView::default_v();
    let s1 = (match v.customer_managed_encryption { Some(x) => seq![("customerManagedEncryption"@, enc_customer_managed_encryption_status(x))], None => Seq::empty() });
    let t1 = s1;
    assert(enc_automatic_status_entries(v) =~= t1);
    let a1 = crate::model::replication_status::AutomaticStatusView { customer_managed_encryption: v.customer_managed_encryption, ..a0 };
    match v.customer_managed_encryption {
        Some(x) => {
            lemma_customer_managed_encryption_status_round_trip(x);
            assert(dec_automatic_status_field(a0, "customerManagedEncryption"@, enc_customer_managed_encryption_status(x)) == Some(a1));
        assert(s1.len() == 1);
        assert(s1.skip(1).len() == 0);
        assert(dec_automatic_status_entries(s1.skip(1), a1) == Some(a1));
        assert(dec_automatic_status_entries(s1, a0) == Some(a1));
        },
        None => {
            assert(s1.len() == 0);
            assert(a1 == a0);
            assert(dec_automatic_status_entries(s1, a0) == Some(a1));
        },
    }

    assert(dec_automatic_status_entries(t1, a0) == Some(a1));
    assert(a1 == v);
    assert(dec_automatic_status_entries(enc_automatic_status_entries(v), a0) == Some(v));
}

/// The wire entries of a user-managed replication status, in schema order.
pub open spec fn enc_user_managed_status_entries(v: crate::model::replication_status::UserManagedStatusView) -> Seq<(Seq<char>, JsonView)> {
    seq![("replicas"@, JsonView::Arr(Seq::new(v.replicas.len(), |i: int| enc_replica_status(v.replicas[i]))))]
}

/// The wire form of a user-managed replication status.
pub open spec fn enc_user_managed_status(v: crate::model::replication_status::UserManagedStatusView) -> JsonView {
    JsonView::Obj(enc_user_managed_status_entries(v))
}

/// One decoding step of a user-managed replication status: a known key fills its field, null
/// counts as absent, an unknown key is skipped.
pub open spec fn dec_user_managed_status_field(acc: crate::model::replication_status::UserManagedStatusView, key: Seq<char>, val: JsonView) -> Option<crate::model::replication_status::UserManagedStatusView> {
    if key == "replicas"@ {
        if val is Null {
            Some(acc)
        } else {
            match val {
                JsonView::Arr(items) => match dec_replica_status_arr(items) {
                    Some(xs) => Some(crate::model::replication_status::UserManagedStatusView { replicas: xs, ..acc }),
                    None => None,
                },
                _ => None,
            }
        }
    } else {
        Some(acc)
    }
}

/// Decoding over the entries of a user-managed replication status, entry by entry.
pub open spec fn dec_user_managed_status_entries(es: Seq<(Seq<char>, JsonView)>, acc: crate::model::replication_status::UserManagedStatusView) -> Option<crate::model::replication_status::UserManagedStatusView>
    decreases es.len(),
{
    if es.len() == 0 {
        Some(acc)
    } else {
        match dec_user_managed_status_field(acc, es[0].0, es[0].1) {
            Some(a2) => dec_user_managed_status_entries(es.skip(1), a2),
            None => None,
        }
    }
}

/// The value of a user-managed replication status a wire value denotes, starting from the default.
pub open spec fn dec_user_managed_status(j: JsonView) -> Option<crate::model::replication_status::UserManagedStatusView> {
    match j {
        JsonView::Obj(es) => dec_user_managed_status_entries(es, crate::model::replication_status::UserManagedStatusView::default_v()),
        _ => None,
    }
}

/// Decoding distributes over concatenated entry lists.
proof fn lemma_dec_user_managed_status_entries_concat(
    a: Seq<(Seq<char>, JsonView)>,
    b: Seq<(Seq<char>, JsonView)>,
    acc: crate::model::replication_status::UserManagedStatusView,
)
    ensures
        dec_user_managed_status_entries(a + b, acc) == match dec_user_managed_status_entries(a, acc) {
            Some(m) => dec_user_managed_status_entries(b, m),
            None => None::<crate::model::replication_status::UserManagedStatusView>,
        },
    decreases a.len(),
{
    if a.len() == 0 {
        assert(a + b =~= b);
    } else {
        assert((a + b)[0] == a[0]);
        match dec_user_managed_status_field(acc, a[0].0, a[0].1) {
            Some(m) => {
                lemma_dec_user_managed_status_entries_concat(a.skip(1), b, m);
                assert((a + b).skip(1) =~= a.skip(1) + b);
            },
            None => {},
        }
    }
}

/// Encodes a user-managed replication status in its wire form.
pub fn encode_user_managed_status(v: &crate::model::replication_status::UserManagedStatus) -> (r: Json)
    requires
        v@.wf(),
    ensures
        r@ == enc_user_managed_status(v@),
{
    let ghost vv = v@;
    let mut es: Vec<(String, Json)> = Vec::new();
    let ghost mut expect: Seq<(Seq<char>, JsonView)> = Seq::empty();
    proof {
        assert(entries_view(es) =~= expect);
    }
        {
            let mut items: Vec<Json> = Vec::new();
            let mut i: usize = 0;
            while i < v.replicas.len()
                invariant
                    i <= v.replicas@.len(),
                    vv == v@,
                    items@.len() == i as int,
                    forall|j: int| 0 <= j < i ==> items@[j]@ == enc_replica_status(#[trigger] vv.replicas[j]),
                decreases v.replicas@.len() - i,
            {
                items.push(encode_replica_status(&v.replicas[i]));
                i += 1;
            }
            proof {
                lemma_arr_view(items);
                assert(items_view(items) =~= Seq::new(vv.replicas.len(), |i: int| enc_replica_status(vv.replicas[i])));
            }
            es.push(("replicas".to_owned(), Json::Arr(items)));
        }
        proof {
            expect = expect + seq![("replicas"@, JsonView::Arr(Seq::new(vv.replicas.len(), |i: int| enc_replica_status(vv.replicas[i]))))];
            assert(entries_view(es) =~= expect);
        }
    let r = Json::Obj(es);
    proof {
        lemma_obj_view(r->Obj_0);
        assert(expect =~= enc_user_managed_status_entries(vv));
    }
    r
}

/// Decodes a user-managed replication status from its wire form: unknown keys are skipped, null
/// values and missing fields leave the default, and a value of the wrong
/// shape for its key is a serialization error naming the field.
pub fn decode_user_managed_status(v: &Json) -> (r: Result<crate::model::replication_status::UserManagedStatus, Error>)
    ensures
        match r {
            Ok(out) => dec_user_managed_status(v@) == Some(out@),
            Err(e) => dec_user_managed_status(v@) is None && e.kind == ErrorKind::Serde,
        },
{
    let es = match v {
        Json::Obj(es) => es,
        _ => {
            return Err(shape_error("UserManagedStatus"));
        },
    };
    let ghost es0 = entries_view(*es);
    proof {
        lemma_obj_view(*es);
    }
    let mut out = crate::model::replication_status::UserManagedStatus::default();
    let mut i: usize = 0;
    proof {
        assert(es0.skip(0) =~= es0);
    }
    while i < es.len()
        invariant
            i <= es@.len(),
            es0 == entries_view(*es),
            es0.len() == es@.len(),
            v@ == JsonView::Obj(es0),
            dec_user_managed_status_entries(es0, crate::model::replication_status::UserManagedStatusView::default_v()) == dec_user_managed_status_entries(
                es0.skip(i as int),
                out@,
            ),
        decreases es@.len() - i,
    {
        let ghost pre = es0.skip(i as int);
        proof {
            assert(pre[0] == es0[i as int]);
            assert(es0[i as int] == (es@[i as int].0@, es@[i as int].1@));
            assert(pre.skip(1) =~= es0.skip(i as int + 1));
        }
        let key = &es[i].0;
        let val = &es[i].1;
        if str_eq(key.as_str(), "replicas") {
                if let Json::Null = val {
                } else {
                    match val {
                    Json::Arr(items) => {
                        proof {
                            lemma_arr_view(*items);
                        }
                        match decode_replica_status_vec(items) {
                            Ok(xs) => {
                                out = crate::model::replication_status::UserManagedStatus { replicas: xs, ..out };
                            },
                            Err(e) => {
                                return Err(e);
                            },
                        }
                    },
                    _ => {
                        return Err(field_error("UserManagedStatus", "replicas"));
                    },
                }
                }
            }
        i += 1;
    }
    proof {
        assert(es0.skip(i as int).len() == 0);
    }
    Ok(out)
}

/// Law: a user-managed replication status survives the wire: decoding its encoding gives back the
/// same value, field for field.
pub proof fn lemma_user_managed_status_round_trip(v: crate::model::replication_status::UserManagedStatusView)
    requires
        v.wf(),
    ensures
        dec_user_managed_status(enc_user_managed_status(v)) == Some(v),
{
    reveal_strlit("replicas");
    assert(("replicas"@).len() == 8);
    let a0 = crate::model::replication_status::UserManagedStatusView::default_v();
    let s1 = seq![("replicas"@, JsonView::Arr(Seq::new(v.replicas.len(), |i: int| enc_replica_status(v.replicas[i]))))];
    let t1 = s1;
    assert(enc_user_managed_status_entries(v) =~= t1);
    let a1 = crate::model::replication_status::UserManagedStatusView { replicas: v.replicas, ..a0 };
    {
        lemma_replica_status_arr_round_trip(v.replicas);
        assert(dec_user_managed_status_field(a0, "replicas"@, JsonView::Arr(Seq::new(v.replicas.len(), |i: int| enc_replica_status(v.replicas[i])))) == Some(a1));
        assert(s1.len() == 1);
        assert(s1.skip(1).len() == 0);
        assert(dec_user_managed_status_entries(s1.skip(1), a1) == Some(a1));
        assert(dec_user_managed_status_entries(s1, a0) == Some(a1));
    }

    assert(dec_user_managed_status_entries(t1, a0) == Some(a1));
    assert(a1 == v);
    assert(dec_user_managed_status_entries(enc_user_managed_status_entries(v), a0) == Some(v));
}

} // verus!

verus! {

/// Whether every key of an object's entries is `k`: the key-subset test
/// union resolution uses for a single-field alternative.
pub open spec fn obj_keys_among(es: Seq<(Seq<char>, JsonView)>, k: Seq<char>) -> bool {
    forall|i: int| 0 <= i < es.len() ==> (#[trigger] es[i]).0 == k
}

/// Tests [`obj_keys_among`] executably.
fn keys_among(es: &Vec<(String, Json)>, k: &str) -> (r: bool)
    ensures
        r == obj_keys_among(entries_view(*es), k@),
{
    let ghost es0 = entries_view(*es);
    let mut i: usize = 0;
    while i < es.len()
        invariant
            i <= es@.len(),
            es0 == entries_view(*es),
            es0.len() == es@.len(),
            forall|j: int| 0 <= j < i ==> (#[trigger] es0[j]).0 == k@,
        decreases es@.len() - i,
    {
        assert(es0[i as int] == (es@[i as int].0@, es@[i as int].1@));
        if !str_eq(es[i].0.as_str(), k) {
            return false;
        }
        i += 1;
    }
    true
}


impl crate::model::replication::ReplicationView {
    /// Whether the active alternative is well-formed.
    pub open spec fn wf(self) -> bool {
        match self {
            crate::model::replication::ReplicationView::Automatic(x) => x.wf(),
            crate::model::replication::ReplicationView::UserManaged(x) => x.wf(),
        }
    }
}

/// The wire form of a replication policy union: exactly the active alternative's own object,
/// with no wrapper and no tag.
pub open spec fn enc_replication_union(v: crate::model::replication::ReplicationView) -> JsonView {
    match v {
        crate::model::replication::ReplicationView::Automatic(x) => enc_automatic(x),
        crate::model::replication::ReplicationView::UserManaged(x) => enc_user_managed(x),
    }
}

/// The union value a wire value denotes. The alternatives are tried in
/// declaration order; one matches when every key of the object belongs to
/// it and its own decoding succeeds. When two alternatives both match (for
/// instance on an empty object) the first declared wins: that order
/// dependence is inherent to an untagged union and mirrors the wire
/// contract.
pub open spec fn dec_replication_union(j: JsonView) -> Option<crate::model::replication::ReplicationView> {
    match j {
        JsonView::Obj(es) => if obj_keys_among(es, "customerManagedEncryption"@) && dec_automatic(j) is Some {
            Some(crate::model::replication::ReplicationView::Automatic(dec_automatic(j)->Some_0))
        } else if obj_keys_among(es, "replicas"@) && dec_user_managed(j) is Some {
            Some(crate::model::replication::ReplicationView::UserManaged(dec_user_managed(j)->Some_0))
        } else {
            None
        },
        _ => None,
    }
}

/// Encodes a replication policy union as the active alternative's own shape.
pub fn encode_replication_union(v: &crate::model::replication::Replication) -> (r: Json)
    requires
        v@.wf(),
    ensures
        r@ == enc_replication_union(v@),
{
    match v {
        crate::model::replication::Replication::Automatic(x) => encode_automatic(x),
        crate::model::replication::Replication::UserManaged(x) => encode_user_managed(x),
    }
}

/// Decodes a replication policy union, trying the alternatives in declaration order; fails with
/// a serialization error when no alternative matches the shape.
pub fn decode_replication_union(v: &Json) -> (r: Result<crate::model::replication::Replication, Error>)
    ensures
        match r {
            Ok(out) => dec_replication_union(v@) == Some(out@),
            Err(e) => dec_replication_union(v@) is None && e.kind == ErrorKind::Serde,
        },
{
    let es = match v {
        Json::Obj(es) => es,
        _ => {
            return Err(shape_error("Replication"));
        },
    };
    proof {
        lemma_obj_view(*es);
    }
    if keys_among(es, "customerManagedEncryption") {
        match decode_automatic(v) {
            Ok(x) => {
                return Ok(crate::model::replication::Replication::Automatic(x));
            },
            Err(_) => {},
        }
    }
    if keys_among(es, "replicas") {
        match decode_user_managed(v) {
            Ok(x) => {
                return Ok(crate::model::replication::Replication::UserManaged(x));
            },
            Err(_) => {},
        }
    }
    Err(shape_error("Replication"))
}

/// Law: a replication policy union survives the wire: the encoded alternative is the one the
/// order-dependent resolution picks, and it decodes back to the same value.
pub proof fn lemma_replication_union_round_trip(v: crate::model::replication::ReplicationView)
    requires
        v.wf(),
    ensures
        dec_replication_union(enc_replication_union(v)) == Some(v),
{
    reveal_strlit("customerManagedEncryption");
    reveal_strlit("replicas");
    assert(("customerManagedEncryption"@).len() == 25);
    assert(("replicas"@).len() == 8);
    assert("customerManagedEncryption"@ != "replicas"@);
    match v {
        crate::model::replication::ReplicationView::Automatic(x) => {
            lemma_automatic_round_trip(x);
            let es = enc_automatic_entries(x);
            assert(enc_automatic(x) == JsonView::Obj(es));
            match x.customer_managed_encryption {
                Some(_) => {
                    assert(es.len() == 1);
                    assert(es[0].0 == "customerManagedEncryption"@);
                },
                None => {
                    assert(es.len() == 0);
                },
            }
            assert(obj_keys_among(es, "customerManagedEncryption"@));
        },
        crate::model::replication::ReplicationView::UserManaged(x) => {
            lemma_user_managed_round_trip(x);
            let es = enc_user_managed_entries(x);
            assert(enc_user_managed(x) == JsonView::Obj(es));
            assert(es.len() == 1);
            assert(es[0].0 == "replicas"@);
            assert(es[0].0 != "customerManagedEncryption"@);
            assert(!obj_keys_among(es, "customerManagedEncryption"@));
            assert(obj_keys_among(es, "replicas"@));
        },
    }
}

impl crate::model::replication_status::ReplicationStatusView {
    /// Whether the active alternative is well-formed.
    pub open spec fn wf(self) -> bool {
        match self {
            crate::model::replication_status::ReplicationStatusView::Automatic(x) => x.wf(),
            crate::model::replication_status::ReplicationStatusView::UserManaged(x) => x.wf(),
        }
    }
}

/// The wire form of a replication status union: exactly the active alternative's own object,
/// with no wrapper and no tag.
pub open spec fn enc_replication_status_union(v: crate::model::replication_status::ReplicationStatusView) -> JsonView {
    match v {
        crate::model::replication_status::ReplicationStatusView::Automatic(x) => enc_automatic_status(x),
        crate::model::replication_status::ReplicationStatusView::UserManaged(x) => enc_user_managed_status(x),
    }
}

/// The union value a wire value denotes. The alternatives are tried in
/// declaration order; one matches when every key of the object belongs to
/// it and its own decoding succeeds. When two alternatives both match (for
/// instance on an empty object) the first declared wins: that order
/// dependence is inherent to an untagged union and mirrors the wire
/// contract.
pub open spec fn dec_replication_status_union(j: JsonView) -> Option<crate::model::replication_status::ReplicationStatusView> {
    match j {
        JsonView::Obj(es) => if obj_keys_among(es, "customerManagedEncryption"@) && dec_automatic_status(j) is Some {
            Some(crate::model::replication_status::ReplicationStatusView::Automatic(dec_automatic_status(j)->Some_0))
        } else if obj_keys_among(es, "replicas"@) && dec_user_managed_status(j) is Some {
            Some(crate::model::replication_status::ReplicationStatusView::UserManaged(dec_user_managed_status(j)->Some_0))
        } else {
            None
        },
        _ => None,
    }
}

/// Encodes a replication status union as the active alternative's own shape.
pub fn encode_replication_status_union(v: &crate::model::replication_status::ReplicationStatus) -> (r: Json)
    requires
        v@.wf(),
    ensures
        r@ == enc_replication_status_union(v@),
{
    match v {
        crate::model::replication_status::ReplicationStatus::Automatic(x) => encode_automatic_status(x),
        crate::model::replication_status::ReplicationStatus::UserManaged(x) => encode_user_managed_status(x),
    }
}

/// Decodes a replication status union, trying the alternatives in declaration order; fails with
/// a serialization error when no alternative matches the shape.
pub fn decode_replication_status_union(v: &Json) -> (r: Result<crate::model::replication_status::ReplicationStatus, Error>)
    ensures
        match r {
            Ok(out) => dec_replication_status_union(v@) == Some(out@),
            Err(e) => dec_replication_status_union(v@) is None && e.kind == ErrorKind::Serde,
        },
{
    let es = match v {
        Json::Obj(es) => es,
        _ => {
            return Err(shape_error("ReplicationStatus"));
        },
    };
    proof {
        lemma_obj_view(*es);
    }
    if keys_among(es, "customerManagedEncryption") {
        match decode_automatic_status(v) {
            Ok(x) => {
                return Ok(crate::model::replication_status::ReplicationStatus::Automatic(x));
            },
            Err(_) => {},
        }
    }
    if keys_among(es, "replicas") {
        match decode_user_managed_status(v) {
            Ok(x) => {
                return Ok(crate::model::replication_status::ReplicationStatus::UserManaged(x));
            },
            Err(_) => {},
        }
    }
    Err(shape_error("ReplicationStatus"))
}

/// Law: a replication status union survives the wire: the encoded alternative is the one the
/// order-dependent resolution picks, and it decodes back to the same value.
pub proof fn lemma_replication_status_union_round_trip(v: crate::model::replication_status::ReplicationStatusView)
    requires
        v.wf(),
    ensures
        dec_replication_status_union(enc_replication_status_union(v)) == Some(v),
{
    reveal_strlit("customerManagedEncryption");
    reveal_strlit("replicas");
    assert(("customerManagedEncryption"@).len() == 25);
    assert(("replicas"@).len() == 8);
    assert("customerManagedEncryption"@ != "replicas"@);
    match v {
        crate::model::replication_status::ReplicationStatusView::Automatic(x) => {
            lemma_automatic_status_round_trip(x);
            let es = enc_automatic_status_entries(x);
            assert(enc_automatic_status(x) == JsonView::Obj(es));
            match x.customer_managed_encryption {
                Some(_) => {
                    assert(es.len() == 1);
                    assert(es[0].0 == "customerManagedEncryption"@);
                },
                None => {
                    assert(es.len() == 0);
                },
            }
            assert(obj_keys_among(es, "customerManagedEncryption"@));
        },
        crate::model::replication_status::ReplicationStatusView::UserManaged(x) => {
            lemma_user_managed_status_round_trip(x);
            let es = enc_user_managed_status_entries(x);
            assert(enc_user_managed_status(x) == JsonView::Obj(es));
            assert(es.len() == 1);
            assert(es[0].0 == "replicas"@);
            assert(es[0].0 != "customerManagedEncryption"@);
            assert(!obj_keys_among(es, "customerManagedEncryption"@));
            assert(obj_keys_among(es, "replicas"@));
        },
    }
}

} // verus!

verus! {

/// The facts about the trusted timestamp conversion the expiration union
/// needs: an expire-time text parses back to the same timestamp, and a TTL
/// text is never mistaken for a timestamp. Both are the contracts of the
/// rendering wrappers, so every encoded value satisfies them.
pub open spec fn expiration_text_facts(e: crate::model::secret::Expiration) -> bool {
    match e {
        crate::model::secret::Expiration::ExpireTime(t) => timestamp_text_inverts(t),
        crate::model::secret::Expiration::Ttl(d) => timestamp_of_text(
            duration_text(d.seconds, d.nanos),
        ) is None,
    }
}

/// The wire form of an expiration policy: exactly the active alternative's
/// own string value, with no wrapper and no tag.
pub open spec fn enc_expiration(v: crate::model::secret::Expiration) -> JsonView {
    match v {
        crate::model::secret::Expiration::ExpireTime(t) => JsonView::Str(
            timestamp_text(t.seconds, t.nanos),
        ),
        crate::model::secret::Expiration::Ttl(d) => JsonView::Str(
            duration_text(d.seconds, d.nanos),
        ),
    }
}

/// The expiration a wire value denotes: a string that parses as a timestamp
/// is an expire time; otherwise one that parses as a duration is a TTL. The
/// alternatives are tried in declaration order.
pub open spec fn dec_expiration(j: JsonView) -> Option<crate::model::secret::Expiration> {
    match field_ts(j) {
        Some(t) => Some(crate::model::secret::Expiration::ExpireTime(t)),
        None => match field_dur(j) {
            Some(d) => Some(crate::model::secret::Expiration::Ttl(d)),
            None => None,
        },
    }
}

/// Encodes an expiration policy as the active alternative's own text.
pub fn encode_expiration(v: &crate::model::secret::Expiration) -> (r: Json)
    requires
        v@.wf(),
    ensures
        r@ == enc_expiration(v@),
        expiration_text_facts(v@),
{
    match v {
        crate::model::secret::Expiration::ExpireTime(t) => Json::Str(
            timestamp_render(t.seconds, t.nanos),
        ),
        crate::model::secret::Expiration::Ttl(d) => Json::Str(
            duration_render(d.seconds, d.nanos),
        ),
    }
}

/// Decodes an expiration policy, trying a timestamp first, then a duration.
pub fn decode_expiration(v: &Json) -> (r: Result<crate::model::secret::Expiration, Error>)
    ensures
        match r {
            Ok(out) => dec_expiration(v@) == Some(out@) && out@.wf(),
            Err(e) => dec_expiration(v@) is None && e.kind == ErrorKind::Serde,
        },
{
    match v {
        Json::Str(s) => match timestamp_parse_text(s.as_str()) {
            Some(p) => Ok(
                crate::model::secret::Expiration::ExpireTime(
                    crate::wellknown::Timestamp { seconds: p.0, nanos: p.1 },
                ),
            ),
            None => match duration_from_text(s.as_str()) {
                Some(p) => Ok(
                    crate::model::secret::Expiration::Ttl(
                        crate::wellknown::Duration { seconds: p.0, nanos: p.1 },
                    ),
                ),
                None => Err(shape_error("Expiration")),
            },
        },
        _ => Err(shape_error("Expiration")),
    }
}

/// Law: an expiration policy survives the wire: an expire time is decoded
/// as the first alternative, a TTL never parses as a timestamp, so each
/// alternative decodes back to itself.
pub proof fn lemma_expiration_round_trip(v: crate::model::secret::Expiration)
    requires
        v.wf(),
        expiration_text_facts(v),
    ensures
        dec_expiration(enc_expiration(v)) == Some(v),
{
    match v {
        crate::model::secret::Expiration::ExpireTime(t) => {
            assert(field_ts(JsonView::Str(timestamp_text(t.seconds, t.nanos))) == Some(t));
        },
        crate::model::secret::Expiration::Ttl(d) => {
            crate::wellknown::lemma_duration_text_round_trip(d.seconds, d.nanos);
            assert(field_ts(JsonView::Str(duration_text(d.seconds, d.nanos))) is None);
            assert(field_dur(JsonView::Str(duration_text(d.seconds, d.nanos))) == Some(d));
        },
    }
}

} // verus!

verus! {

impl crate::model::RotationView {
    /// Whether the contained timestamp and duration are in range.
    pub open spec fn wf(self) -> bool {
        &&& (match self.next_rotation_time { Some(x) => x.wf(), None => true })
        &&& (match self.rotation_period { Some(x) => x.wf(), None => true })
    }
}


impl crate::model::ReplicationView {
    /// Whether the contained policy is well-formed.
    pub open spec fn wf(self) -> bool {
        (match self.replication { Some(x) => x.wf(), None => true })
    }
}


impl crate::model::ReplicationStatusView {
    /// Whether the contained status is well-formed.
    pub open spec fn wf(self) -> bool {
        (match self.replication_status { Some(x) => x.wf(), None => true })
    }
}


impl crate::model::SecretPayloadView {
    /// Every payload value is well-formed.
    pub open spec fn wf(self) -> bool {
        true
    }
}


/// The wire entries of a rotation policy, in schema order.
pub open spec fn enc_rotation_entries(v: crate::model::RotationView) -> Seq<(Seq<char>, JsonView)> {
    (match v.next_rotation_time { Some(t) => seq![("nextRotationTime"@, JsonView::Str(timestamp_text(t.seconds, t.nanos)))], None => Seq::empty() })
        + (match v.rotation_period { Some(d) => seq![("rotationPeriod"@, JsonView::Str(duration_text(d.seconds, d.nanos)))], None => Seq::empty() })
}

/// The wire form of a rotation policy.
pub open spec fn enc_rotation(v: crate::model::RotationView) -> JsonView {
    JsonView::Obj(enc_rotation_entries(v))
}

/// One decoding step of a rotation policy: a known key fills its field, null
/// counts as absent, an unknown key is skipped.
pub open spec fn dec_rotation_field(acc: crate::model::RotationView, key: Seq<char>, val: JsonView) -> Option<crate::model::RotationView> {
    if key == "nextRotationTime"@ {
        if val is Null {
            Some(acc)
        } else {
            match field_ts(val) {
                Some(t) => Some(crate::model::RotationView { next_rotation_time: Some(t), ..acc }),
                None => None,
            }
        }
    } else if key == "rotationPeriod"@ {
        if val is Null {
            Some(acc)
        } else {
            match field_dur(val) {
                Some(d) => Some(crate::model::RotationView { rotation_period: Some(d), ..acc }),
                None => None,
            }
        }
    } else {
        Some(acc)
    }
}

/// Decoding over the entries of a rotation policy, entry by entry.
pub open spec fn dec_rotation_entries(es: Seq<(Seq<char>, JsonView)>, acc: crate::model::RotationView) -> Option<crate::model::RotationView>
    decreases es.len(),
{
    if es.len() == 0 {
        Some(acc)
    } else {
        match dec_rotation_field(acc, es[0].0, es[0].1) {
            Some(a2) => dec_rotation_entries(es.skip(1), a2),
            None => None,
        }
    }
}

/// The value of a rotation policy a wire value denotes, starting from the default.
pub open spec fn dec_rotation(j: JsonView) -> Option<crate::model::RotationView> {
    match j {
        JsonView::Obj(es) => dec_rotation_entries(es, crate::model::RotationView::default_v()),
        _ => None,
    }
}

/// The facts about the trusted timestamp text conversion that the
/// round-trip law needs for this record: each contained timestamp's text
/// parses back to the same value. They are the contract of the rendering
/// wrapper, so every encoded record satisfies them.
pub open spec fn rotation_text_facts(v: crate::model::RotationView) -> bool {
    &&& (match v.next_rotation_time { Some(t) => timestamp_text_inverts(t), None => true })
}

/// Decoding distributes over concatenated entry lists.
proof fn lemma_dec_rotation_entries_concat(
    a: Seq<(Seq<char>, JsonView)>,
    b: Seq<(Seq<char>, JsonView)>,
    acc: crate::model::RotationView,
)
    ensures
        dec_rotation_entries(a + b, acc) == match dec_rotation_entries(a, acc) {
            Some(m) => dec_rotation_entries(b, m),
            None => None::<crate::model::RotationView>,
        },
    decreases a.len(),
{
    if a.len() == 0 {
        assert(a + b =~= b);
    } else {
        assert((a + b)[0] == a[0]);
        match dec_rotation_field(acc, a[0].0, a[0].1) {
            Some(m) => {
                lemma_dec_rotation_entries_concat(a.skip(1), b, m);
                assert((a + b).skip(1) =~= a.skip(1) + b);
            },
            None => {},
        }
    }
}

/// Encodes a rotation policy in its wire form.
pub fn encode_rotation(v: &crate::model::Rotation) -> (r: Json)
    requires
        v@.wf(),
    ensures
        r@ == enc_rotation(v@),
        rotation_text_facts(v@),
{
    let ghost vv = v@;
    let mut es: Vec<(String, Json)> = Vec::new();
    let ghost mut expect: Seq<(Seq<char>, JsonView)> = Seq::empty();
    proof {
        assert(entries_view(es) =~= expect);
    }
        match &v.next_rotation_time {
            Some(t) => {
                es.push(("nextRotationTime".to_owned(), Json::Str(timestamp_render(t.seconds, t.nanos))));
            },
            None => {},
        }
        proof {
            expect = expect + (match vv.next_rotation_time { Some(t) => seq![("nextRotationTime"@, JsonView::Str(timestamp_text(t.seconds, t.nanos)))], None => Seq::empty() });
            assert(entries_view(es) =~= expect);
        }
        match &v.rotation_period {
            Some(d) => {
                es.push(("rotationPeriod".to_owned(), Json::Str(duration_render(d.seconds, d.nanos))));
            },
            None => {},
        }
        proof {
            expect = expect + (match vv.rotation_period { Some(d) => seq![("rotationPeriod"@, JsonView::Str(duration_text(d.seconds, d.nanos)))], None => Seq::empty() });
            assert(entries_view(es) =~= expect);
        }
    let r = Json::Obj(es);
    proof {
        lemma_obj_view(r->Obj_0);
        assert(expect =~= enc_rotation_entries(vv));
    }
    r
}

/// Decodes a rotation policy from its wire form: unknown keys are skipped, null
/// values and missing fields leave the default, and a value of the wrong
/// shape for its key is a serialization error naming the field.
pub fn decode_rotation(v: &Json) -> (r: Result<crate::model::Rotation, Error>)
    ensures
        match r {
            Ok(out) => dec_rotation(v@) == Some(out@),
            Err(e) => dec_rotation(v@) is None && e.kind == ErrorKind::Serde,
        },
{
    let es = match v {
        Json::Obj(es) => es,
        _ => {
            return Err(shape_error("Rotation"));
        },
    };
    let ghost es0 = entries_view(*es);
    proof {
        lemma_obj_view(*es);
    }
    let mut out = crate::model::Rotation::default();
    let mut i: usize = 0;
    proof {
        assert(es0.skip(0) =~= es0);
    }
    while i < es.len()
        invariant
            i <= es@.len(),
            es0 == entries_view(*es),
            es0.len() == es@.len(),
            v@ == JsonView::Obj(es0),
            dec_rotation_entries(es0, crate::model::RotationView::default_v()) == dec_rotation_entries(
                es0.skip(i as int),
                out@,
            ),
        decreases es@.len() - i,
    {
        let ghost pre = es0.skip(i as int);
        proof {
            assert(pre[0] == es0[i as int]);
            assert(es0[i as int] == (es@[i as int].0@, es@[i as int].1@));
            assert(pre.skip(1) =~= es0.skip(i as int + 1));
        }
        let key = &es[i].0;
        let val = &es[i].1;
        if str_eq(key.as_str(), "nextRotationTime") {
                if let Json::Null = val {
                } else {
                    match jv_ts(val) {
                    Ok(x) => {
                        out = crate::model::Rotation { next_rotation_time: Some(x), ..out };
                    },
                    Err(_) => {
                        return Err(field_error("Rotation", "nextRotationTime"));
                    },
                }
                }
            } else if str_eq(key.as_str(), "rotationPeriod") {
                if let Json::Null = val {
                } else {
                    match jv_dur(val) {
                    Ok(x) => {
                        out = crate::model::Rotation { rotation_period: Some(x), ..out };
                    },
                    Err(_) => {
                        return Err(field_error("Rotation", "rotationPeriod"));
                    },
                }
                }
            }
        i += 1;
    }
    proof {
        assert(es0.skip(i as int).len() == 0);
    }
    Ok(out)
}

/// Law: a rotation policy survives the wire: decoding its encoding gives back the
/// same value, field for field.
pub proof fn lemma_rotation_round_trip(v: crate::model::RotationView)
    requires
        v.wf(),
        rotation_text_facts(v),
    ensures
        dec_rotation(enc_rotation(v)) == Some(v),
{
    reveal_strlit("nextRotationTime");
    reveal_strlit("rotationPeriod");
    assert(("nextRotationTime"@).len() == 16);
    assert(("rotationPeriod"@).len() == 14);
    assert("nextRotationTime"@ != "rotationPeriod"@);
    let a0 = crate::model::RotationView::default_v();
    let s1 = (match v.next_rotation_time { Some(t) => seq![("nextRotationTime"@, JsonView::Str(timestamp_text(t.seconds, t.nanos)))], None => Seq::empty() });
    let s2 = (match v.rotation_period { Some(d) => seq![("rotationPeriod"@, JsonView::Str(duration_text(d.seconds, d.nanos)))], None => Seq::empty() });
    let t2 = s2;
    let t1 = s1 + t2;
    assert(enc_rotation_entries(v) =~= t1);
    let a1 = crate::model::RotationView { next_rotation_time: v.next_rotation_time, ..a0 };
    let a2 = crate::model::RotationView { rotation_period: v.rotation_period, ..a1 };
    match v.next_rotation_time {
        Some(t) => {
            assert(timestamp_text_inverts(t));
            assert(field_ts(JsonView::Str(timestamp_text(t.seconds, t.nanos))) == Some(t));
            assert(dec_rotation_field(a0, "nextRotationTime"@, JsonView::Str(timestamp_text(t.seconds, t.nanos))) == Some(a1));
        assert(s1.len() == 1);
        assert(s1.skip(1).len() == 0);
        assert(dec_rotation_entries(s1.skip(1), a1) == Some(a1));
        assert(dec_rotation_entries(s1, a0) == Some(a1));
        },
        None => {
            assert(s1.len() == 0);
            assert(a1 == a0);
            assert(dec_rotation_entries(s1, a0) == Some(a1));
        },
    }
    match v.rotation_period {
        Some(d) => {
            crate::wellknown::lemma_duration_text_round_trip(d.seconds, d.nanos);
            assert(field_dur(JsonView::Str(duration_text(d.seconds, d.nanos))) == Some(d));
            assert(dec_rotation_field(a1, "rotationPeriod"@, JsonView::Str(duration_text(d.seconds, d.nanos))) == Some(a2));
        assert(s2.len() == 1);
        assert(s2.skip(1).len() == 0);
        assert(dec_rotation_entries(s2.skip(1), a2) == Some(a2));
        assert(dec_rotation_entries(s2, a1) == Some(a2));
        },
        None => {
            assert(s2.len() == 0);
            assert(a2 == a1);
            assert(dec_rotation_entries(s2, a1) == Some(a2));
        },
    }
    lemma_dec_rotation_entries_concat(s1, t2, a0);
    assert(dec_rotation_entries(t1, a0) == dec_rotation_entries(t2, a1));
    assert(dec_rotation_entries(t2, a1) == Some(a2));
    assert(a2 == v);
    assert(dec_rotation_entries(enc_rotation_entries(v), a0) == Some(v));
}

/// The wire entries of a replication configuration, in schema order.
pub open spec fn enc_replication_entries(v: crate::model::ReplicationView) -> Seq<(Seq<char>, JsonView)> {
    (match v.replication { Some(x) => seq![("replication"@, enc_replication_union(x))], None => Seq::empty() })
}

/// The wire form of a replication configuration.
pub open spec fn enc_replication(v: crate::model::ReplicationView) -> JsonView {
    JsonView::Obj(enc_replication_entries(v))
}

/// One decoding step of a replication configuration: a known key fills its field, null
/// counts as absent, an unknown key is skipped.
pub open spec fn dec_replication_field(acc: crate::model::ReplicationView, key: Seq<char>, val: JsonView) -> Option<crate::model::ReplicationView> {
    if key == "replication"@ {
        if val is Null {
            Some(acc)
        } else {
            match dec_replication_union(val) {
                Some(x) => Some(crate::model::ReplicationView { replication: Some(x), ..acc }),
                None => None,
            }
        }
    } else {
        Some(acc)
    }
}

/// Decoding over the entries of a replication configuration, entry by entry.
pub open spec fn dec_replication_entries(es: Seq<(Seq<char>, JsonView)>, acc: crate::model::ReplicationView) -> Option<crate::model::ReplicationView>
    decreases es.len(),
{
    if es.len() == 0 {
        Some(acc)
    } else {
        match dec_replication_field(acc, es[0].0, es[0].1) {
            Some(a2) => dec_replication_entries(es.skip(1), a2),
            None => None,
        }
    }
}

/// The value of a replication configuration a wire value denotes, starting from the default.
pub open spec fn dec_replication(j: JsonView) -> Option<crate::model::ReplicationView> {
    match j {
        JsonView::Obj(es) => dec_replication_entries(es, crate::model::ReplicationView::default_v()),
        _ => None,
    }
}

/// Decoding distributes over concatenated entry lists.
proof fn lemma_dec_replication_entries_concat(
    a: Seq<(Seq<char>, JsonView)>,
    b: Seq<(Seq<char>, JsonView)>,
    acc: crate::model::ReplicationView,
)
    ensures
        dec_replication_entries(a + b, acc) == match dec_replication_entries(a, acc) {
            Some(m) => dec_replication_entries(b, m),
            None => None::<crate::model::ReplicationView>,
        },
    decreases a.len(),
{
    if a.len() == 0 {
        assert(a + b =~= b);
    } else {
        assert((a + b)[0] == a[0]);
        match dec_replication_field(acc, a[0].0, a[0].1) {
            Some(m) => {
                lemma_dec_replication_entries_concat(a.skip(1), b, m);
                assert((a + b).skip(1) =~= a.skip(1) + b);
            },
            None => {},
        }
    }
}

/// Encodes a replication configuration in its wire form.
pub fn encode_replication(v: &crate::model::Replication) -> (r: Json)
    requires
        v@.wf(),
    ensures
        r@ == enc_replication(v@),
{
    let ghost vv = v@;
    let mut es: Vec<(String, Json)> = Vec::new();
    let ghost mut expect: Seq<(Seq<char>, JsonView)> = Seq::empty();
    proof {
        assert(entries_view(es) =~= expect);
    }
        match &v.replication {
            Some(x) => {
                es.push(("replication".to_owned(), encode_replication_union(x)));
            },
            None => {},
        }
        proof {
            expect = expect + (match vv.replication { Some(x) => seq![("replication"@, enc_replication_union(x))], None => Seq::empty() });
            assert(entries_view(es) =~= expect);
        }
    let r = Json::Obj(es);
    proof {
        lemma_obj_view(r->Obj_0);
        assert(expect =~= enc_replication_entries(vv));
    }
    r
}

/// Decodes a replication configuration from its wire form: unknown keys are skipped, null
/// values and missing fields leave the default, and a value of the wrong
/// shape for its key is a serialization error naming the field.
pub fn decode_replication(v: &Json) -> (r: Result<crate::model::Replication, Error>)
    ensures
        match r {
            Ok(out) => dec_replication(v@) == Some(out@),
            Err(e) => dec_replication(v@) is None && e.kind == ErrorKind::Serde,
        },
{
    let es = match v {
        Json::Obj(es) => es,
        _ => {
            return Err(shape_error("Replication"));
        },
    };
    let ghost es0 = entries_view(*es);
    proof {
        lemma_obj_view(*es);
    }
    let mut out = crate::model::Replication::default();
    let mut i: usize = 0;
    proof {
        assert(es0.skip(0) =~= es0);
    }
    while i < es.len()
        invariant
            i <= es@.len(),
            es0 == entries_view(*es),
            es0.len() == es@.len(),
            v@ == JsonView::Obj(es0),
            dec_replication_entries(es0, crate::model::ReplicationView::default_v()) == dec_replication_entries(
                es0.skip(i as int),
                out@,
            ),
        decreases es@.len() - i,
    {
        let ghost pre = es0.skip(i as int);
        proof {
            assert(pre[0] == es0[i as int]);
            assert(es0[i as int] == (es@[i as int].0@, es@[i as int].1@));
            assert(pre.skip(1) =~= es0.skip(i as int + 1));
        }
        let key = &es[i].0;
        let val = &es[i].1;
        if str_eq(key.as_str(), "replication") {
                if let Json::Null = val {
                } else {
                    match decode_replication_union(val) {
                    Ok(x) => {
                        out = crate::model::Replication { replication: Some(x), ..out };
                    },
                    Err(e) => {
                        return Err(e);
                    },
                }
                }
            }
        i += 1;
    }
    proof {
        assert(es0.skip(i as int).len() == 0);
    }
    Ok(out)
}

/// Law: a replication configuration survives the wire: decoding its encoding gives back the
/// same value, field for field.
pub proof fn lemma_replication_round_trip(v: crate::model::ReplicationView)
    requires
        v.wf(),
    ensures
        dec_replication(enc_replication(v)) == Some(v),
{
    reveal_strlit("replication");
    assert(("replication"@).len() == 11);
    let a0 = crate::model::ReplicationView::default_v();
    let s1 = (match v.replication { Some(x) => seq![("replication"@, enc_replication_union(x))], None => Seq::empty() });
    let t1 = s1;
    assert(enc_replication_entries(v) =~= t1);
    let a1 = crate::model::ReplicationView { replication: v.replication, ..a0 };
    match v.replication {
        Some(x) => {
            lemma_replication_union_round_trip(x);
            assert(dec_replication_field(a0, "replication"@, enc_replication_union(x)) == Some(a1));
        assert(s1.len() == 1);
        assert(s1.skip(1).len() == 0);
        assert(dec_replication_entries(s1.skip(1), a1) == Some(a1));
        assert(dec_replication_entries(s1, a0) == Some(a1));
        },
        None => {
            assert(s1.len() == 0);
            assert(a1 == a0);
            assert(dec_replication_entries(s1, a0) == Some(a1));
        },
    }

    assert(dec_replication_entries(t1, a0) == Some(a1));
    assert(a1 == v);
    assert(dec_replication_entries(enc_replication_entries(v), a0) == Some(v));
}

/// The wire entries of a replication status, in schema order.
pub open spec fn enc_replication_status_entries(v: crate::model::ReplicationStatusView) -> Seq<(Seq<char>, JsonView)> {
    (match v.replication_status { Some(x) => seq![("replicationStatus"@, enc_replication_status_union(x))], None => Seq::empty() })
}

/// The wire form of a replication status.
pub open spec fn enc_replication_status(v: crate::model::ReplicationStatusView) -> JsonView {
    JsonView::Obj(enc_replication_status_entries(v))
}

/// One decoding step of a replication status: a known key fills its field, null
/// counts as absent, an unknown key is skipped.
pub open spec fn dec_replication_status_field(acc: crate::model::ReplicationStatusView, key: Seq<char>, val: JsonView) -> Option<crate::model::ReplicationStatusView> {
    if key == "replicationStatus"@ {
        if val is Null {
            Some(acc)
        } else {
            match dec_replication_status_union(val) {
                Some(x) => Some(crate::model::ReplicationStatusView { replication_status: Some(x), ..acc }),
                None => None,
            }
        }
    } else {
        Some(acc)
    }
}

/// Decoding over the entries of a replication status, entry by entry.
pub open spec fn dec_replication_status_entries(es: Seq<(Seq<char>, JsonView)>, acc: crate::model::ReplicationStatusView) -> Option<crate::model::ReplicationStatusView>
    decreases es.len(),
{
    if es.len() == 0 {
        Some(acc)
    } else {
        match dec_replication_status_field(acc, es[0].0, es[0].1) {
            Some(a2) => dec_replication_status_entries(es.skip(1), a2),
            None => None,
        }
    }
}

/// The value of a replication status a wire value denotes, starting from the default.
pub open spec fn dec_replication_status(j: JsonView) -> Option<crate::model::ReplicationStatusView> {
    match j {
        JsonView::Obj(es) => dec_replication_status_entries(es, crate::model::ReplicationStatusView::default_v()),
        _ => None,
    }
}

/// Decoding distributes over concatenated entry lists.
proof fn lemma_dec_replication_status_entries_concat(
    a: Seq<(Seq<char>, JsonView)>,
    b: Seq<(Seq<char>, JsonView)>,
    acc: crate::model::ReplicationStatusView,
)
    ensures
        dec_replication_status_entries(a + b, acc) == match dec_replication_status_entries(a, acc) {
            Some(m) => dec_replication_status_entries(b, m),
            None => None::<crate::model::ReplicationStatusView>,
        },
    decreases a.len(),
{
    if a.len() == 0 {
        assert(a + b =~= b);
    } else {
        assert((a + b)[0] == a[0]);
        match dec_replication_status_field(acc, a[0].0, a[0].1) {
            Some(m) => {
                lemma_dec_replication_status_entries_concat(a.skip(1), b, m);
                assert((a + b).skip(1) =~= a.skip(1) + b);
            },
            None => {},
        }
    }
}

/// Encodes a replication status in its wire form.
pub fn encode_replication_status(v: &crate::model::ReplicationStatus) -> (r: Json)
    requires
        v@.wf(),
    ensures
        r@ == enc_replication_status(v@),
{
    let ghost vv = v@;
    let mut es: Vec<(String, Json)> = Vec::new();
    let ghost mut expect: Seq<(Seq<char>, JsonView)> = Seq::empty();
    proof {
        assert(entries_view(es) =~= expect);
    }
        match &v.replication_status {
            Some(x) => {
                es.push(("replicationStatus".to_owned(), encode_replication_status_union(x)));
            },
            None => {},
        }
        proof {
            expect = expect + (match vv.replication_status { Some(x) => seq![("replicationStatus"@, enc_replication_status_union(x))], None => Seq::empty() });
            assert(entries_view(es) =~= expect);
        }
    let r = Json::Obj(es);
    proof {
        lemma_obj_view(r->Obj_0);
        assert(expect =~= enc_replication_status_entries(vv));
    }
    r
}

/// Decodes a replication status from its wire form: unknown keys are skipped, null
/// values and missing fields leave the default, and a value of the wrong
/// shape for its key is a serialization error naming the field.
pub fn decode_replication_status(v: &Json) -> (r: Result<crate::model::ReplicationStatus, Error>)
    ensures
        match r {
            Ok(out) => dec_replication_status(v@) == Some(out@),
            Err(e) => dec_replication_status(v@) is None && e.kind == ErrorKind::Serde,
        },
{
    let es = match v {
        Json::Obj(es) => es,
        _ => {
            return Err(shape_error("ReplicationStatus"));
        },
    };
    let ghost es0 = entries_view(*es);
    proof {
        lemma_obj_view(*es);
    }
    let mut out = crate::model::ReplicationStatus::default();
    let mut i: usize = 0;
    proof {
        assert(es0.skip(0) =~= es0);
    }
    while i < es.len()
        invariant
            i <= es@.len(),
            es0 == entries_view(*es),
            es0.len() == es@.len(),
            v@ == JsonView::Obj(es0),
            dec_replication_status_entries(es0, crate::model::ReplicationStatusView::default_v()) == dec_replication_status_entries(
                es0.skip(i as int),
                out@,
            ),
        decreases es@.len() - i,
    {
        let ghost pre = es0.skip(i as int);
        proof {
            assert(pre[0] == es0[i as int]);
            assert(es0[i as int] == (es@[i as int].0@, es@[i as int].1@));
            assert(pre.skip(1) =~= es0.skip(i as int + 1));
        }
        let key = &es[i].0;
        let val = &es[i].1;
        if str_eq(key.as_str(), "replicationStatus") {
                if let Json::Null = val {
                } else {
                    match decode_replication_status_union(val) {
                    Ok(x) => {
                        out = crate::model::ReplicationStatus { replication_status: Some(x), ..out };
                    },
                    Err(e) => {
                        return Err(e);
                    },
                }
                }
            }
        i += 1;
    }
    proof {
        assert(es0.skip(i as int).len() == 0);
    }
    Ok(out)
}

/// Law: a replication status survives the wire: decoding its encoding gives back the
/// same value, field for field.
pub proof fn lemma_replication_status_round_trip(v: crate::model::ReplicationStatusView)
    requires
        v.wf(),
    ensures
        dec_replication_status(enc_replication_status(v)) == Some(v),
{
    reveal_strlit("replicationStatus");
    assert(("replicationStatus"@).len() == 17);
    let a0 = crate::model::ReplicationStatusView::default_v();
    let s1 = (match v.replication_status { Some(x) => seq![("replicationStatus"@, enc_replication_status_union(x))], None => Seq::empty() });
    let t1 = s1;
    assert(enc_replication_status_entries(v) =~= t1);
    let a1 = crate::model::ReplicationStatusView { replication_status: v.replication_status, ..a0 };
    match v.replication_status {
        Some(x) => {
            lemma_replication_status_union_round_trip(x);
            assert(dec_replication_status_field(a0, "replicationStatus"@, enc_replication_status_union(x)) == Some(a1));
        assert(s1.len() == 1);
        assert(s1.skip(1).len() == 0);
        assert(dec_replication_status_entries(s1.skip(1), a1) == Some(a1));
        assert(dec_replication_status_entries(s1, a0) == Some(a1));
        },
        None => {
            assert(s1.len() == 0);
            assert(a1 == a0);
            assert(dec_replication_status_entries(s1, a0) == Some(a1));
        },
    }

    assert(dec_replication_status_entries(t1, a0) == Some(a1));
    assert(a1 == v);
    assert(dec_replication_status_entries(enc_replication_status_entries(v), a0) == Some(v));
}

/// The wire entries of a secret payload, in schema order.
pub open spec fn enc_secret_payload_entries(v: crate::model::SecretPayloadView) -> Seq<(Seq<char>, JsonView)> {
    seq![("data"@, JsonView::Str(b64_enc(v.data)))]
        + (match v.data_crc32c { Some(n) => seq![("dataCrc32c"@, JsonView::Str(i64_rep(n)))], None => Seq::empty() })
}

/// The wire form of a secret payload.
pub open spec fn enc_secret_payload(v: crate::model::SecretPayloadView) -> JsonView {
    JsonView::Obj(enc_secret_payload_entries(v))
}

/// One decoding step of a secret payload: a known key fills its field, null
/// counts as absent, an unknown key is skipped.
pub open spec fn dec_secret_payload_field(acc: crate::model::SecretPayloadView, key: Seq<char>, val: JsonView) -> Option<crate::model::SecretPayloadView> {
    if key == "data"@ {
        if val is Null {
            Some(acc)
        } else {
            match field_bytes(val) {
                Some(b) => Some(crate::model::SecretPayloadView { data: b, ..acc }),
                None => None,
            }
        }
    } else if key == "dataCrc32c"@ {
        if val is Null {
            Some(acc)
        } else {
            match field_i64s(val) {
                Some(n) => Some(crate::model::SecretPayloadView { data_crc32c: Some(n), ..acc }),
                None => None,
            }
        }
    } else {
        Some(acc)
    }
}

/// Decoding over the entries of a secret payload, entry by entry.
pub open spec fn dec_secret_payload_entries(es: Seq<(Seq<char>, JsonView)>, acc: crate::model::SecretPayloadView) -> Option<crate::model::SecretPayloadView>
    decreases es.len(),
{
    if es.len() == 0 {
        Some(acc)
    } else {
        match dec_secret_payload_field(acc, es[0].0, es[0].1) {
            Some(a2) => dec_secret_payload_entries(es.skip(1), a2),
            None => None,
        }
    }
}

/// The value of a secret payload a wire value denotes, starting from the default.
pub open spec fn dec_secret_payload(j: JsonView) -> Option<crate::model::SecretPayloadView> {
    match j {
        JsonView::Obj(es) => dec_secret_payload_entries(es, crate::model::SecretPayloadView::default_v()),
        _ => None,
    }
}

/// Decoding distributes over concatenated entry lists.
proof fn lemma_dec_secret_payload_entries_concat(
    a: Seq<(Seq<char>, JsonView)>,
    b: Seq<(Seq<char>, JsonView)>,
    acc: crate::model::SecretPayloadView,
)
    ensures
        dec_secret_payload_entries(a + b, acc) == match dec_secret_payload_entries(a, acc) {
            Some(m) => dec_secret_payload_entries(b, m),
            None => None::<crate::model::SecretPayloadView>,
        },
    decreases a.len(),
{
    if a.len() == 0 {
        assert(a + b =~= b);
    } else {
        assert((a + b)[0] == a[0]);
        match dec_secret_payload_field(acc, a[0].0, a[0].1) {
            Some(m) => {
                lemma_dec_secret_payload_entries_concat(a.skip(1), b, m);
                assert((a + b).skip(1) =~= a.skip(1) + b);
            },
            None => {},
        }
    }
}

/// Encodes a secret payload in its wire form.
pub fn encode_secret_payload(v: &crate::model::SecretPayload) -> (r: Json)
    requires
        v@.wf(),
    ensures
        r@ == enc_secret_payload(v@),
{
    let ghost vv = v@;
    let mut es: Vec<(String, Json)> = Vec::new();
    let ghost mut expect: Seq<(Seq<char>, JsonView)> = Seq::empty();
    proof {
        assert(entries_view(es) =~= expect);
    }
        es.push(("data".to_owned(), Json::Str(bytes_to_b64(&v.data))));
        proof {
            expect = expect + seq![("data"@, JsonView::Str(b64_enc(vv.data)))];
            assert(entries_view(es) =~= expect);
        }
        match &v.data_crc32c {
            Some(x) => {
                es.push(("dataCrc32c".to_owned(), Json::Str(i64_to_dec(*x))));
            },
            None => {},
        }
        proof {
            expect = expect + (match vv.data_crc32c { Some(n) => seq![("dataCrc32c"@, JsonView::Str(i64_rep(n)))], None => Seq::empty() });
            assert(entries_view(es) =~= expect);
        }
    let r = Json::Obj(es);
    proof {
        lemma_obj_view(r->Obj_0);
        assert(expect =~= enc_secret_payload_entries(vv));
    }
    r
}

/// Decodes a secret payload from its wire form: unknown keys are skipped, null
/// values and missing fields leave the default, and a value of the wrong
/// shape for its key is a serialization error naming the field.
pub fn decode_secret_payload(v: &Json) -> (r: Result<crate::model::SecretPayload, Error>)
    ensures
        match r {
            Ok(out) => dec_secret_payload(v@) == Some(out@),
            Err(e) => dec_secret_payload(v@) is None && e.kind == ErrorKind::Serde,
        },
{
    let es = match v {
        Json::Obj(es) => es,
        _ => {
            return Err(shape_error("SecretPayload"));
        },
    };
    let ghost es0 = entries_view(*es);
    proof {
        lemma_obj_view(*es);
    }
    let mut out = crate::model::SecretPayload::default();
    let mut i: usize = 0;
    proof {
        assert(es0.skip(0) =~= es0);
    }
    while i < es.len()
        invariant
            i <= es@.len(),
            es0 == entries_view(*es),
            es0.len() == es@.len(),
            v@ == JsonView::Obj(es0),
            dec_secret_payload_entries(es0, crate::model::SecretPayloadView::default_v()) == dec_secret_payload_entries(
                es0.skip(i as int),
                out@,
            ),
        decreases es@.len() - i,
    {
        let ghost pre = es0.skip(i as int);
        proof {
            assert(pre[0] == es0[i as int]);
            assert(es0[i as int] == (es@[i as int].0@, es@[i as int].1@));
            assert(pre.skip(1) =~= es0.skip(i as int + 1));
        }
        let key = &es[i].0;
        let val = &es[i].1;
        if str_eq(key.as_str(), "data") {
                if let Json::Null = val {
                } else {
                    match jv_bytes(val) {
                    Ok(x) => {
                        out = crate::model::SecretPayload { data: x, ..out };
                    },
                    Err(_) => {
                        return Err(field_error("SecretPayload", "data"));
                    },
                }
                }
            } else if str_eq(key.as_str(), "dataCrc32c") {
                if let Json::Null = val {
                } else {
                    match jv_i64s(val) {
                    Ok(x) => {
                        out = crate::model::SecretPayload { data_crc32c: Some(x), ..out };
                    },
                    Err(_) => {
                        return Err(field_error("SecretPayload", "dataCrc32c"));
                    },
                }
                }
            }
        i += 1;
    }
    proof {
        assert(es0.skip(i as int).len() == 0);
    }
    Ok(out)
}

/// Law: a secret payload survives the wire: decoding its encoding gives back the
/// same value, field for field.
pub proof fn lemma_secret_payload_round_trip(v: crate::model::SecretPayloadView)
    requires
        v.wf(),
    ensures
        dec_secret_payload(enc_secret_payload(v)) == Some(v),
{
    reveal_strlit("data");
    reveal_strlit("dataCrc32c");
    assert(("data"@).len() == 4);
    assert(("dataCrc32c"@).len() == 10);
    assert("data"@ != "dataCrc32c"@);
    let a0 = crate::model::SecretPayloadView::default_v();
    let s1 = seq![("data"@, JsonView::Str(b64_enc(v.data)))];
    let s2 = (match v.data_crc32c { Some(n) => seq![("dataCrc32c"@, JsonView::Str(i64_rep(n)))], None => Seq::empty() });
    let t2 = s2;
    let t1 = s1 + t2;
    assert(enc_secret_payload_entries(v) =~= t1);
    let a1 = crate::model::SecretPayloadView { data: v.data, ..a0 };
    let a2 = crate::model::SecretPayloadView { data_crc32c: v.data_crc32c, ..a1 };
    {
        crate::scalar::lemma_b64_round_trip(v.data);
        assert(dec_secret_payload_field(a0, "data"@, JsonView::Str(b64_enc(v.data))) == Some(a1));
        assert(s1.len() == 1);
        assert(s1.skip(1).len() == 0);
        assert(dec_secret_payload_entries(s1.skip(1), a1) == Some(a1));
        assert(dec_secret_payload_entries(s1, a0) == Some(a1));
    }
    match v.data_crc32c {
        Some(x) => {
            crate::scalar::lemma_i64_dec_round_trip(x);
            assert(dec_secret_payload_field(a1, "dataCrc32c"@, JsonView::Str(i64_rep(x))) == Some(a2));
        assert(s2.len() == 1);
        assert(s2.skip(1).len() == 0);
        assert(dec_secret_payload_entries(s2.skip(1), a2) == Some(a2));
        assert(dec_secret_payload_entries(s2, a1) == Some(a2));
        },
        None => {
            assert(s2.len() == 0);
            assert(a2 == a1);
            assert(dec_secret_payload_entries(s2, a1) == Some(a2));
        },
    }
    lemma_dec_secret_payload_entries_concat(s1, t2, a0);
    assert(dec_secret_payload_entries(t1, a0) == dec_secret_payload_entries(t2, a1));
    assert(dec_secret_payload_entries(t2, a1) == Some(a2));
    assert(a2 == v);
    assert(dec_secret_payload_entries(enc_secret_payload_entries(v), a0) == Some(v));
}

} // verus!

verus! {

/// Decodes each element of an array as this record; any failing element
/// fails the array.
pub open spec fn dec_topic_arr(items: Seq<JsonView>) -> Option<Seq<crate::model::TopicView>>
    decreases items.len(),
{
    if items.len() == 0 {
        Some(Seq::empty())
    } else {
        match dec_topic(items[0]) {
            Some(x) => match dec_topic_arr(items.skip(1)) {
                Some(rest) => Some(seq![x] + rest),
                None => None,
            },
            None => None,
        }
    }
}

/// The view of an executable list of these records.
pub open spec fn topic_vec_view(xs: Vec<crate::model::Topic>) -> Seq<crate::model::TopicView> {
    Seq::new(xs@.len(), |i: int| xs@[i]@)
}

/// An encoded array of well-formed records decodes to the same records.
pub proof fn lemma_topic_arr_round_trip(vs: Seq<crate::model::TopicView>)
    requires
        forall|i: int| 0 <= i < vs.len() ==> (#[trigger] vs[i]).wf(),
    ensures
        dec_topic_arr(Seq::new(vs.len(), |i: int| enc_topic(vs[i]))) == Some(vs),
    decreases vs.len(),
{
    let items = Seq::new(vs.len(), |i: int| enc_topic(vs[i]));
    if vs.len() == 0 {
        assert(vs =~= Seq::<crate::model::TopicView>::empty());
    } else {
        assert(vs[0].wf());
        lemma_topic_round_trip(vs[0]);
        assert(items[0] == enc_topic(vs[0]));
        lemma_topic_arr_round_trip(vs.skip(1));
        assert(items.skip(1) =~= Seq::new(vs.skip(1).len(), |i: int| enc_topic(vs.skip(1)[i])));
        assert(seq![vs[0]] + vs.skip(1) =~= vs);
    }
}

/// Decodes an array of these records.
fn decode_topic_vec(items: &Vec<Json>) -> (r: Result<Vec<crate::model::Topic>, Error>)
    ensures
        match r {
            Ok(xs) => dec_topic_arr(items_view(*items)) == Some(topic_vec_view(xs)),
            Err(e) => dec_topic_arr(items_view(*items)) is None && e.kind == ErrorKind::Serde,
        },
{
    let ghost iv = items_view(*items);
    let mut xs: Vec<crate::model::Topic> = Vec::new();
    let mut k: usize = 0;
    proof {
        assert(iv.skip(0) =~= iv);
        assert(topic_vec_view(xs) =~= Seq::<crate::model::TopicView>::empty());
    }
    while k < items.len()
        invariant
            k <= items@.len(),
            iv == items_view(*items),
            iv.len() == items@.len(),
            dec_topic_arr(iv) == (match dec_topic_arr(iv.skip(k as int)) {
                Some(rest) => Some(topic_vec_view(xs) + rest),
                None => None::<Seq<crate::model::TopicView>>,
            }),
        decreases items@.len() - k,
    {
        proof {
            assert(iv.skip(k as int)[0] == iv[k as int]);
            assert(iv[k as int] == items@[k as int]@);
            assert(iv.skip(k as int).skip(1) =~= iv.skip(k as int + 1));
        }
        match decode_topic(&items[k]) {
            Ok(x) => {
                let ghost xs0 = topic_vec_view(xs);
                xs.push(x);
                proof {
                    assert(topic_vec_view(xs) =~= xs0 + seq![x@]);
                    match dec_topic_arr(iv.skip(k as int + 1)) {
                        Some(rest) => {
                            assert((xs0 + seq![x@]) + rest =~= xs0 + (seq![x@] + rest));
                        },
                        None => {},
                    }
                }
            },
            Err(e) => {
                return Err(e);
            },
        }
        k += 1;
    }
    proof {
        assert(iv.skip(k as int).len() == 0);
        assert(topic_vec_view(xs) + Seq::<crate::model::TopicView>::empty() =~= topic_vec_view(xs));
    }
    Ok(xs)
}

} // verus!







verus! {

impl crate::model::SecretView {
    /// Whether every contained value is in range and every mapping key-unique.
    pub open spec fn wf(self) -> bool {
        &&& (match self.replication { Some(x) => x.wf(), None => true })
        &&& (match self.create_time { Some(x) => x.wf(), None => true })
        &&& keys_unique(self.labels)
        &&& (forall|i: int| 0 <= i < self.topics.len() ==> (#[trigger] self.topics[i]).wf())
        &&& (match self.rotation { Some(x) => x.wf(), None => true })
        &&& keys_unique(self.version_aliases)
        &&& keys_unique(self.annotations)
        &&& (match self.version_destroy_ttl { Some(x) => x.wf(), None => true })
        &&& (match self.customer_managed_encryption { Some(x) => x.wf(), None => true })
        &&& (match self.expiration { Some(x) => x.wf(), None => true })
    }
}


impl crate::model::SecretVersionView {
    /// Whether every contained value is in range.
    pub open spec fn wf(self) -> bool {
        &&& (match self.create_time { Some(x) => x.wf(), None => true })
        &&& (match self.destroy_time { Some(x) => x.wf(), None => true })
        &&& (match self.replication_status { Some(x) => x.wf(), None => true })
        &&& (match self.scheduled_destroy_time { Some(x) => x.wf(), None => true })
        &&& (match self.customer_managed_encryption { Some(x) => x.wf(), None => true })
    }
}


/// The wire entries of a secret, in schema order.
pub open spec fn enc_secret_entries(v: crate::model::SecretView) -> Seq<(Seq<char>, JsonView)> {
    seq![("name"@, JsonView::Str(v.name))]
        + (match v.replication { Some(x) => seq![("replication"@, enc_replication(x))], None => Seq::empty() })
        + (match v.create_time { Some(t) => seq![("createTime"@, JsonView::Str(timestamp_text(t.seconds, t.nanos)))], None => Seq::empty() })
        + (if v.labels.len() == 0 { Seq::empty() } else { seq![("labels"@, JsonView::Obj(enc_strmap_entries(v.labels)))] })
        + seq![("topics"@, JsonView::Arr(Seq::new(v.topics.len(), |i: int| enc_topic(v.topics[i]))))]
        + seq![("etag"@, JsonView::Str(v.etag))]
        + (match v.rotation { Some(x) => seq![("rotation"@, enc_rotation(x))], None => Seq::empty() })
        + (if v.version_aliases.len() == 0 { Seq::empty() } else { seq![("versionAliases"@, JsonView::Obj(enc_i64map_entries(v.version_aliases)))] })
        + (if v.annotations.len() == 0 { Seq::empty() } else { seq![("annotations"@, JsonView::Obj(enc_strmap_entries(v.annotations)))] })
        + (match v.version_destroy_ttl { Some(d) => seq![("versionDestroyTtl"@, JsonView::Str(duration_text(d.seconds, d.nanos)))], None => Seq::empty() })
        + (match v.customer_managed_encryption { Some(x) => seq![("customerManagedEncryption"@, enc_customer_managed_encryption(x))], None => Seq::empty() })
        + (match v.expiration { Some(x) => seq![("expiration"@, enc_expiration(x))], None => Seq::empty() })
}

/// The wire form of a secret.
pub open spec fn enc_secret(v: crate::model::SecretView) -> JsonView {
    JsonView::Obj(enc_secret_entries(v))
}

/// One decoding step of a secret: a known key fills its field, null
/// counts as absent, an unknown key is skipped.
pub open spec fn dec_secret_field(acc: crate::model::SecretView, key: Seq<char>, val: JsonView) -> Option<crate::model::SecretView> {
    if key == "name"@ {
        if val is Null {
            Some(acc)
        } else {
            match field_str(val) {
                Some(s) => Some(crate::model::SecretView { name: s, ..acc }),
                None => None,
            }
        }
    } else if key == "replication"@ {
        if val is Null {
            Some(acc)
        } else {
            match dec_replication(val) {
                Some(x) => Some(crate::model::SecretView { replication: Some(x), ..acc }),
                None => None,
            }
        }
    } else if key == "createTime"@ {
        if val is Null {
            Some(acc)
        } else {
            match field_ts(val) {
                Some(t) => Some(crate::model::SecretView { create_time: Some(t), ..acc }),
                None => None,
            }
        }
    } else if key == "labels"@ {
        if val is Null {
            Some(acc)
        } else {
            match field_strmap(val) {
                Some(m) => Some(crate::model::SecretView { labels: m, ..acc }),
                None => None,
            }
        }
    } else if key == "topics"@ {
        if val is Null {
            Some(acc)
        } else {
            match val {
                JsonView::Arr(items) => match dec_topic_arr(items) {
                    Some(xs) => Some(crate::model::SecretView { topics: xs, ..acc }),
                    None => None,
                },
                _ => None,
            }
        }
    } else if key == "etag"@ {
        if val is Null {
            Some(acc)
        } else {
            match field_str(val) {
                Some(s) => Some(crate::model::SecretView { etag: s, ..acc }),
                None => None,
            }
        }
    } else if key == "rotation"@ {
        if val is Null {
            Some(acc)
        } else {
            match dec_rotation(val) {
                Some(x) => Some(crate::model::SecretView { rotation: Some(x), ..acc }),
                None => None,
            }
        }
    } else if key == "versionAliases"@ {
        if val is Null {
            Some(acc)
        } else {
            match field_i64map(val) {
                Some(m) => Some(crate::model::SecretView { version_aliases: m, ..acc }),
                None => None,
            }
        }
    } else if key == "annotations"@ {
        if val is Null {
            Some(acc)
        } else {
            match field_strmap(val) {
                Some(m) => Some(crate::model::SecretView { annotations: m, ..acc }),
                None => None,
            }
        }
    } else if key == "versionDestroyTtl"@ {
        if val is Null {
            Some(acc)
        } else {
            match field_dur(val) {
                Some(d) => Some(crate::model::SecretView { version_destroy_ttl: Some(d), ..acc }),
                None => None,
            }
        }
    } else if key == "customerManagedEncryption"@ {
        if val is Null {
            Some(acc)
        } else {
            match dec_customer_managed_encryption(val) {
                Some(x) => Some(crate::model::SecretView { customer_managed_encryption: Some(x), ..acc }),
                None => None,
            }
        }
    } else if key == "expiration"@ {
        if val is Null {
            Some(acc)
        } else {
            match dec_expiration(val) {
                Some(x) => Some(crate::model::SecretView { expiration: Some(x), ..acc }),
                None => None,
            }
        }
    } else {
        Some(acc)
    }
}

/// Decoding over the entries of a secret, entry by entry.
pub open spec fn dec_secret_entries(es: Seq<(Seq<char>, JsonView)>, acc: crate::model::SecretView) -> Option<crate::model::SecretView>
    decreases es.len(),
{
    if es.len() == 0 {
        Some(acc)
    } else {
        match dec_secret_field(acc, es[0].0, es[0].1) {
            Some(a2) => dec_secret_entries(es.skip(1), a2),
            None => None,
        }
    }
}

/// The value of a secret a wire value denotes, starting from the default.
pub open spec fn dec_secret(j: JsonView) -> Option<crate::model::SecretView> {
    match j {
        JsonView::Obj(es) => dec_secret_entries(es, crate::model::SecretView::default_v()),
        _ => None,
    }
}

/// The facts about the trusted timestamp text conversion that the
/// round-trip law needs for this record: each contained timestamp's text
/// parses back to the same value. They are the contract of the rendering
/// wrapper, so every encoded record satisfies them.
pub open spec fn secret_text_facts(v: crate::model::SecretView) -> bool {
    &&& (match v.create_time { Some(t) => timestamp_text_inverts(t), None => true })
    &&& (match v.rotation { Some(x) => rotation_text_facts(x), None => true })
    &&& (match v.expiration { Some(x) => expiration_text_facts(x), None => true })
}

/// Decoding distributes over concatenated entry lists.
proof fn lemma_dec_secret_entries_concat(
    a: Seq<(Seq<char>, JsonView)>,
    b: Seq<(Seq<char>, JsonView)>,
    acc: crate::model::SecretView,
)
    ensures
        dec_secret_entries(a + b, acc) == match dec_secret_entries(a, acc) {
            Some(m) => dec_secret_entries(b, m),
            None => None::<crate::model::SecretView>,
        },
    decreases a.len(),
{
    if a.len() == 0 {
        assert(a + b =~= b);
    } else {
        assert((a + b)[0] == a[0]);
        match dec_secret_field(acc, a[0].0, a[0].1) {
            Some(m) => {
                lemma_dec_secret_entries_concat(a.skip(1), b, m);
                assert((a + b).skip(1) =~= a.skip(1) + b);
            },
            None => {},
        }
    }
}

/// Emits the `name` entry of a secret, when the field is emitted.
fn encode_secret_push_name(v: &crate::model::Secret, es: &mut Vec<(String, Json)>)
    requires
        v@.wf(),
    ensures
        entries_view(*final(es)) == entries_view(*old(es)) + seq![("name"@, JsonView::Str(v@.name))],
{
    let ghost vv = v@;
    let ghost es0 = entries_view(*es);
        es.push(("name".to_owned(), Json::Str(v.name.clone())));
        proof {
            assert(entries_view(*es) =~= es0 + seq![("name"@, JsonView::Str(v@.name))]);
        }
}

/// Emits the `replication` entry of a secret, when the field is emitted.
fn encode_secret_push_replication(v: &crate::model::Secret, es: &mut Vec<(String, Json)>)
    requires
        v@.wf(),
    ensures
        entries_view(*final(es)) == entries_view(*old(es)) + (match v@.replication { Some(x) => seq![("replication"@, enc_replication(x))], None => Seq::empty() }),
{
    let ghost vv = v@;
    let ghost es0 = entries_view(*es);
        match &v.replication {
            Some(x) => {
                es.push(("replication".to_owned(), encode_replication(x)));
            },
            None => {},
        }
        proof {
            assert(entries_view(*es) =~= es0 + (match v@.replication { Some(x) => seq![("replication"@, enc_replication(x))], None => Seq::empty() }));
        }
}

/// Emits the `createTime` entry of a secret, when the field is emitted.
fn encode_secret_push_create_time(v: &crate::model::Secret, es: &mut Vec<(String, Json)>)
    requires
        v@.wf(),
    ensures
        entries_view(*final(es)) == entries_view(*old(es)) + (match v@.create_time { Some(t) => seq![("createTime"@, JsonView::Str(timestamp_text(t.seconds, t.nanos)))], None => Seq::empty() }),
        (match v@.create_time { Some(t) => timestamp_text_inverts(t), None => true }),
{
    let ghost vv = v@;
    let ghost es0 = entries_view(*es);
        match &v.create_time {
            Some(t) => {
                es.push(("createTime".to_owned(), Json::Str(timestamp_render(t.seconds, t.nanos))));
            },
            None => {},
        }
        proof {
            assert(entries_view(*es) =~= es0 + (match v@.create_time { Some(t) => seq![("createTime"@, JsonView::Str(timestamp_text(t.seconds, t.nanos)))], None => Seq::empty() }));
        }
}

/// Emits the `labels` entry of a secret, when the field is emitted.
fn encode_secret_push_labels(v: &crate::model::Secret, es: &mut Vec<(String, Json)>)
    requires
        v@.wf(),
    ensures
        entries_view(*final(es)) == entries_view(*old(es)) + (if v@.labels.len() == 0 { Seq::empty() } else { seq![("labels"@, JsonView::Obj(enc_strmap_entries(v@.labels)))] }),
{
    let ghost vv = v@;
    let ghost es0 = entries_view(*es);
        if v.labels.len() > 0 {
            let mut mes: Vec<(String, Json)> = Vec::new();
            let mut i: usize = 0;
            while i < v.labels.len()
                invariant
                    i <= v.labels@.len(),
                    mes@.len() == i as int,
                    forall|j: int|
                        0 <= j < i ==> (#[trigger] mes@[j]).0@ == v.labels@[j].0@ && mes@[j].1@
                            == JsonView::Str(v.labels@[j].1@),
                decreases v.labels@.len() - i,
            {
                mes.push((v.labels[i].0.clone(), Json::Str(v.labels[i].1.clone())));
                i += 1;
            }
            proof {
                lemma_obj_view(mes);
                assert(entries_view(mes) =~= enc_strmap_entries(v@.labels));
            }
            es.push(("labels".to_owned(), Json::Obj(mes)));
        }
        proof {
            assert(entries_view(*es) =~= es0 + (if v@.labels.len() == 0 { Seq::empty() } else { seq![("labels"@, JsonView::Obj(enc_strmap_entries(v@.labels)))] }));
        }
}

/// Emits the `topics` entry of a secret, when the field is emitted.
fn encode_secret_push_topics(v: &crate::model::Secret, es: &mut Vec<(String, Json)>)
    requires
        v@.wf(),
    ensures
        entries_view(*final(es)) == entries_view(*old(es)) + seq![("topics"@, JsonView::Arr(Seq::new(v@.topics.len(), |i: int| enc_topic(v@.topics[i]))))],
{
    let ghost vv = v@;
    let ghost es0 = entries_view(*es);
        {
            let mut items: Vec<Json> = Vec::new();
            let mut i: usize = 0;
            while i < v.topics.len()
                invariant
                    i <= v.topics@.len(),
                    vv == v@,
                    items@.len() == i as int,
                    forall|j: int| 0 <= j < i ==> items@[j]@ == enc_topic(#[trigger] v@.topics[j]),
                decreases v.topics@.len() - i,
            {
                items.push(encode_topic(&v.topics[i]));
                i += 1;
            }
            proof {
                lemma_arr_view(items);
                assert(items_view(items) =~= Seq::new(v@.topics.len(), |i: int| enc_topic(v@.topics[i])));
            }
            es.push(("topics".to_owned(), Json::Arr(items)));
        }
        proof {
            assert(entries_view(*es) =~= es0 + seq![("topics"@, JsonView::Arr(Seq::new(v@.topics.len(), |i: int| enc_topic(v@.topics[i]))))]);
        }
}

/// Emits the `etag` entry of a secret, when the field is emitted.
fn encode_secret_push_etag(v: &crate::model::Secret, es: &mut Vec<(String, Json)>)
    requires
        v@.wf(),
    ensures
        entries_view(*final(es)) == entries_view(*old(es)) + seq![("etag"@, JsonView::Str(v@.etag))],
{
    let ghost vv = v@;
    let ghost es0 = entries_view(*es);
        es.push(("etag".to_owned(), Json::Str(v.etag.clone())));
        proof {
            assert(entries_view(*es) =~= es0 + seq![("etag"@, JsonView::Str(v@.etag))]);
        }
}

/// Emits the `rotation` entry of a secret, when the field is emitted.
fn encode_secret_push_rotation(v: &crate::model::Secret, es: &mut Vec<(String, Json)>)
    requires
        v@.wf(),
    ensures
        entries_view(*final(es)) == entries_view(*old(es)) + (match v@.rotation { Some(x) => seq![("rotation"@, enc_rotation(x))], None => Seq::empty() }),
        (match v@.rotation { Some(x) => rotation_text_facts(x), None => true }),
{
    let ghost vv = v@;
    let ghost es0 = entries_view(*es);
        match &v.rotation {
            Some(x) => {
                es.push(("rotation".to_owned(), encode_rotation(x)));
            },
            None => {},
        }
        proof {
            assert(entries_view(*es) =~= es0 + (match v@.rotation { Some(x) => seq![("rotation"@, enc_rotation(x))], None => Seq::empty() }));
        }
}

/// Emits the `versionAliases` entry of a secret, when the field is emitted.
fn encode_secret_push_version_aliases(v: &crate::model::Secret, es: &mut Vec<(String, Json)>)
    requires
        v@.wf(),
    ensures
        entries_view(*final(es)) == entries_view(*old(es)) + (if v@.version_aliases.len() == 0 { Seq::empty() } else { seq![("versionAliases"@, JsonView::Obj(enc_i64map_entries(v@.version_aliases)))] }),
{
    let ghost vv = v@;
    let ghost es0 = entries_view(*es);
        if v.version_aliases.len() > 0 {
            let mut mes: Vec<(String, Json)> = Vec::new();
            let mut i: usize = 0;
            while i < v.version_aliases.len()
                invariant
                    i <= v.version_aliases@.len(),
                    mes@.len() == i as int,
                    forall|j: int|
                        0 <= j < i ==> (#[trigger] mes@[j]).0@ == v.version_aliases@[j].0@ && mes@[j].1@
                            == JsonView::Str(i64_rep(v.version_aliases@[j].1)),
                decreases v.version_aliases@.len() - i,
            {
                mes.push((v.version_aliases[i].0.clone(), Json::Str(i64_to_dec(v.version_aliases[i].1))));
                i += 1;
            }
            proof {
                lemma_obj_view(mes);
                assert(entries_view(mes) =~= enc_i64map_entries(v@.version_aliases));
            }
            es.push(("versionAliases".to_owned(), Json::Obj(mes)));
        }
        proof {
            assert(entries_view(*es) =~= es0 + (if v@.version_aliases.len() == 0 { Seq::empty() } else { seq![("versionAliases"@, JsonView::Obj(enc_i64map_entries(v@.version_aliases)))] }));
        }
}

/// Emits the `annotations` entry of a secret, when the field is emitted.
fn encode_secret_push_annotations(v: &crate::model::Secret, es: &mut Vec<(String, Json)>)
    requires
        v@.wf(),
    ensures
        entries_view(*final(es)) == entries_view(*old(es)) + (if v@.annotations.len() == 0 { Seq::empty() } else { seq![("annotations"@, JsonView::Obj(enc_strmap_entries(v@.annotations)))] }),
{
    let ghost vv = v@;
    let ghost es0 = entries_view(*es);
        if v.annotations.len() > 0 {
            let mut mes: Vec<(String, Json)> = Vec::new();
            let mut i: usize = 0;
            while i < v.annotations.len()
                invariant
                    i <= v.annotations@.len(),
                    mes@.len() == i as int,
                    forall|j: int|
                        0 <= j < i ==> (#[trigger] mes@[j]).0@ == v.annotations@[j].0@ && mes@[j].1@
                            == JsonView::Str(v.annotations@[j].1@),
                decreases v.annotations@.len() - i,
            {
                mes.push((v.annotations[i].0.clone(), Json::Str(v.annotations[i].1.clone())));
                i += 1;
            }
            proof {
                lemma_obj_view(mes);
                assert(entries_view(mes) =~= enc_strmap_entries(v@.annotations));
            }
            es.push(("annotations".to_owned(), Json::Obj(mes)));
        }
        proof {
            assert(entries_view(*es) =~= es0 + (if v@.annotations.len() == 0 { Seq::empty() } else { seq![("annotations"@, JsonView::Obj(enc_strmap_entries(v@.annotations)))] }));
        }
}

/// Emits the `versionDestroyTtl` entry of a secret, when the field is emitted.
fn encode_secret_push_version_destroy_ttl(v: &crate::model::Secret, es: &mut Vec<(String, Json)>)
    requires
        v@.wf(),
    ensures
        entries_view(*final(es)) == entries_view(*old(es)) + (match v@.version_destroy_ttl { Some(d) => seq![("versionDestroyTtl"@, JsonView::Str(duration_text(d.seconds, d.nanos)))], None => Seq::empty() }),
{
    let ghost vv = v@;
    let ghost es0 = entries_view(*es);
        match &v.version_destroy_ttl {
            Some(d) => {
                es.push(("versionDestroyTtl".to_owned(), Json::Str(duration_render(d.seconds, d.nanos))));
            },
            None => {},
        }
        proof {
            assert(entries_view(*es) =~= es0 + (match v@.version_destroy_ttl { Some(d) => seq![("versionDestroyTtl"@, JsonView::Str(duration_text(d.seconds, d.nanos)))], None => Seq::empty() }));
        }
}

/// Emits the `customerManagedEncryption` entry of a secret, when the field is emitted.
fn encode_secret_push_customer_managed_encryption(v: &crate::model::Secret, es: &mut Vec<(String, Json)>)
    requires
        v@.wf(),
    ensures
        entries_view(*final(es)) == entries_view(*old(es)) + (match v@.customer_managed_encryption { Some(x) => seq![("customerManagedEncryption"@, enc_customer_managed_encryption(x))], None => Seq::empty() }),
{
    let ghost vv = v@;
    let ghost es0 = entries_view(*es);
        match &v.customer_managed_encryption {
            Some(x) => {
                es.push(("customerManagedEncryption".to_owned(), encode_customer_managed_encryption(x)));
            },
            None => {},
        }
        proof {
            assert(entries_view(*es) =~= es0 + (match v@.customer_managed_encryption { Some(x) => seq![("customerManagedEncryption"@, enc_customer_managed_encryption(x))], None => Seq::empty() }));
        }
}

/// Emits the `expiration` entry of a secret, when the field is emitted.
fn encode_secret_push_expiration(v: &crate::model::Secret, es: &mut Vec<(String, Json)>)
    requires
        v@.wf(),
    ensures
        entries_view(*final(es)) == entries_view(*old(es)) + (match v@.expiration { Some(x) => seq![("expiration"@, enc_expiration(x))], None => Seq::empty() }),
        (match v@.expiration { Some(x) => expiration_text_facts(x), None => true }),
{
    let ghost vv = v@;
    let ghost es0 = entries_view(*es);
        match &v.expiration {
            Some(x) => {
                es.push(("expiration".to_owned(), encode_expiration(x)));
            },
            None => {},
        }
        proof {
            assert(entries_view(*es) =~= es0 + (match v@.expiration { Some(x) => seq![("expiration"@, enc_expiration(x))], None => Seq::empty() }));
        }
}

/// Encodes a secret in its wire form.
pub fn encode_secret(v: &crate::model::Secret) -> (r: Json)
    requires
        v@.wf(),
    ensures
        r@ == enc_secret(v@),
        secret_text_facts(v@),
{
    let mut es: Vec<(String, Json)> = Vec::new();
    proof {
        assert(entries_view(es) =~= Seq::<(Seq<char>, JsonView)>::empty());
    }
    encode_secret_push_name(v, &mut es);
    encode_secret_push_replication(v, &mut es);
    encode_secret_push_create_time(v, &mut es);
    encode_secret_push_labels(v, &mut es);
    encode_secret_push_topics(v, &mut es);
    encode_secret_push_etag(v, &mut es);
    encode_secret_push_rotation(v, &mut es);
    encode_secret_push_version_aliases(v, &mut es);
    encode_secret_push_annotations(v, &mut es);
    encode_secret_push_version_destroy_ttl(v, &mut es);
    encode_secret_push_customer_managed_encryption(v, &mut es);
    encode_secret_push_expiration(v, &mut es);
    let r = Json::Obj(es);
    proof {
        lemma_obj_view(r->Obj_0);
        assert(entries_view(es) =~= enc_secret_entries(v@));
    }
    r
}

/// Decodes a secret from its wire form: unknown keys are skipped, null
/// values and missing fields leave the default, and a value of the wrong
/// shape for its key is a serialization error naming the field.
#[verifier::rlimit(100)]
pub fn decode_secret(v: &Json) -> (r: Result<crate::model::Secret, Error>)
    ensures
        match r {
            Ok(out) => dec_secret(v@) == Some(out@),
            Err(e) => dec_secret(v@) is None && e.kind == ErrorKind::Serde,
        },
{
    let es = match v {
        Json::Obj(es) => es,
        _ => {
            return Err(shape_error("Secret"));
        },
    };
    let ghost es0 = entries_view(*es);
    proof {
        lemma_obj_view(*es);
    }
    let mut out = crate::model::Secret::default();
    let mut i: usize = 0;
    proof {
        assert(es0.skip(0) =~= es0);
    }
    while i < es.len()
        invariant
            i <= es@.len(),
            es0 == entries_view(*es),
            es0.len() == es@.len(),
            v@ == JsonView::Obj(es0),
            dec_secret_entries(es0, crate::model::SecretView::default_v()) == dec_secret_entries(
                es0.skip(i as int),
                out@,
            ),
        decreases es@.len() - i,
    {
        let ghost pre = es0.skip(i as int);
        proof {
            assert(pre[0] == es0[i as int]);
            assert(es0[i as int] == (es@[i as int].0@, es@[i as int].1@));
            assert(pre.skip(1) =~= es0.skip(i as int + 1));
        }
        let key = &es[i].0;
        let val = &es[i].1;
        if str_eq(key.as_str(), "name") {
                if let Json::Null = val {
                } else {
                    match jv_str(val) {
                    Ok(x) => {
                        out = crate::model::Secret { name: x, ..out };
                    },
                    Err(_) => {
                        return Err(field_error("Secret", "name"));
                    },
                }
                }
            } else if str_eq(key.as_str(), "replication") {
                if let Json::Null = val {
                } else {
                    match decode_replication(val) {
                    Ok(x) => {
                        out = crate::model::Secret { replication: Some(x), ..out };
                    },
                    Err(e) => {
                        return Err(e);
                    },
                }
                }
            } else if str_eq(key.as_str(), "createTime") {
                if let Json::Null = val {
                } else {
                    match jv_ts(val) {
                    Ok(x) => {
                        out = crate::model::Secret { create_time: Some(x), ..out };
                    },
                    Err(_) => {
                        return Err(field_error("Secret", "createTime"));
                    },
                }
                }
            } else if str_eq(key.as_str(), "labels") {
                if let Json::Null = val {
                } else {
                    match jv_strmap(val) {
                    Ok(x) => {
                        out = crate::model::Secret { labels: x, ..out };
                    },
                    Err(_) => {
                        return Err(field_error("Secret", "labels"));
                    },
                }
                }
            } else if str_eq(key.as_str(), "topics") {
                if let Json::Null = val {
                } else {
                    match val {
                    Json::Arr(items) => {
                        proof {
                            lemma_arr_view(*items);
                        }
                        match decode_topic_vec(items) {
                            Ok(xs) => {
                                out = crate::model::Secret { topics: xs, ..out };
                            },
                            Err(e) => {
                                return Err(e);
                            },
                        }
                    },
                    _ => {
                        return Err(field_error("Secret", "topics"));
                    },
                }
                }
            } else if str_eq(key.as_str(), "etag") {
                if let Json::Null = val {
                } else {
                    match jv_str(val) {
                    Ok(x) => {
                        out = crate::model::Secret { etag: x, ..out };
                    },
                    Err(_) => {
                        return Err(field_error("Secret", "etag"));
                    },
                }
                }
            } else if str_eq(key.as_str(), "rotation") {
                if let Json::Null = val {
                } else {
                    match decode_rotation(val) {
                    Ok(x) => {
                        out = crate::model::Secret { rotation: Some(x), ..out };
                    },
                    Err(e) => {
                        return Err(e);
                    },
                }
                }
            } else if str_eq(key.as_str(), "versionAliases") {
                if let Json::Null = val {
                } else {
                    match jv_i64map(val) {
                    Ok(x) => {
                        out = crate::model::Secret { version_aliases: x, ..out };
                    },
                    Err(_) => {
                        return Err(field_error("Secret", "versionAliases"));
                    },
                }
                }
            } else if str_eq(key.as_str(), "annotations") {
                if let Json::Null = val {
                } else {
                    match jv_strmap(val) {
                    Ok(x) => {
                        out = crate::model::Secret { annotations: x, ..out };
                    },
                    Err(_) => {
                        return Err(field_error("Secret", "annotations"));
                    },
                }
                }
            } else if str_eq(key.as_str(), "versionDestroyTtl") {
                if let Json::Null = val {
                } else {
                    match jv_dur(val) {
                    Ok(x) => {
                        out = crate::model::Secret { version_destroy_ttl: Some(x), ..out };
                    },
                    Err(_) => {
                        return Err(field_error("Secret", "versionDestroyTtl"));
                    },
                }
                }
            } else if str_eq(key.as_str(), "customerManagedEncryption") {
                if let Json::Null = val {
                } else {
                    match decode_customer_managed_encryption(val) {
                    Ok(x) => {
                        out = crate::model::Secret { customer_managed_encryption: Some(x), ..out };
                    },
                    Err(e) => {
                        return Err(e);
                    },
                }
                }
            } else if str_eq(key.as_str(), "expiration") {
                if let Json::Null = val {
                } else {
                    match decode_expiration(val) {
                    Ok(x) => {
                        out = crate::model::Secret { expiration: Some(x), ..out };
                    },
                    Err(e) => {
                        return Err(e);
                    },
                }
                }
            }
        i += 1;
    }
    proof {
        assert(es0.skip(i as int).len() == 0);
    }
    Ok(out)
}

/// The `name` entries of a secret decode onto a state whose own field
/// still has its default value by filling in exactly that field.
proof fn lemma_secret_rt_name(v: crate::model::SecretView, prev: crate::model::SecretView)
    requires
        v.wf(),
        secret_text_facts(v),
    ensures
        dec_secret_entries(seq![("name"@, JsonView::Str(v.name))], prev) == Some(crate::model::SecretView { name: v.name, ..prev }),
{
    reveal_strlit("name");
    let sg = seq![("name"@, JsonView::Str(v.name))];
    let cur = crate::model::SecretView { name: v.name, ..prev };
    {
        assert(dec_secret_field(prev, "name"@, JsonView::Str(v.name)) == Some(cur));
        assert(sg.len() == 1);
        assert(sg.skip(1).len() == 0);
        assert(dec_secret_entries(sg.skip(1), cur) == Some(cur));
        assert(dec_secret_entries(sg, prev) == Some(cur));
    }
}

/// The `replication` entries of a secret decode onto a state whose own field
/// still has its default value by filling in exactly that field.
proof fn lemma_secret_rt_replication(v: crate::model::SecretView, prev: crate::model::SecretView)
    requires
        v.wf(),
        secret_text_facts(v),
        prev.replication == crate::model::SecretView::default_v().replication,
    ensures
        dec_secret_entries((match v.replication { Some(x) => seq![("replication"@, enc_replication(x))], None => Seq::empty() }), prev) == Some(crate::model::SecretView { replication: v.replication, ..prev }),
{
    reveal_strlit("name");
    reveal_strlit("replication");
    assert(("name"@).len() == 4);
    assert(("replication"@).len() == 11);
    assert("name"@ != "replication"@);
    let sg = (match v.replication { Some(x) => seq![("replication"@, enc_replication(x))], None => Seq::empty() });
    let cur = crate::model::SecretView { replication: v.replication, ..prev };
    match v.replication {
        Some(x) => {
            lemma_replication_round_trip(x);
            assert(dec_secret_field(prev, "replication"@, enc_replication(x)) == Some(cur));
        assert(sg.len() == 1);
        assert(sg.skip(1).len() == 0);
        assert(dec_secret_entries(sg.skip(1), cur) == Some(cur));
        assert(dec_secret_entries(sg, prev) == Some(cur));
        },
        None => {
            assert(sg.len() == 0);
            assert(cur == prev);
            assert(dec_secret_entries(sg, prev) == Some(cur));
        },
    }
}

/// The `createTime` entries of a secret decode onto a state whose own field
/// still has its default value by filling in exactly that field.
proof fn lemma_secret_rt_create_time(v: crate::model::SecretView, prev: crate::model::SecretView)
    requires
        v.wf(),
        secret_text_facts(v),
        prev.create_time == crate::model::SecretView::default_v().create_time,
    ensures
        dec_secret_entries((match v.create_time { Some(t) => seq![("createTime"@, JsonView::Str(timestamp_text(t.seconds, t.nanos)))], None => Seq::empty() }), prev) == Some(crate::model::SecretView { create_time: v.create_time, ..prev }),
{
    reveal_strlit("name");
    reveal_strlit("replication");
    reveal_strlit("createTime");
    assert(("name"@).len() == 4);
    assert(("createTime"@).len() == 10);
    assert("name"@ != "createTime"@);
    assert(("replication"@).len() == 11);
    assert(("createTime"@).len() == 10);
    assert("replication"@ != "createTime"@);
    let sg = (match v.create_time { Some(t) => seq![("createTime"@, JsonView::Str(timestamp_text(t.seconds, t.nanos)))], None => Seq::empty() });
    let cur = crate::model::SecretView { create_time: v.create_time, ..prev };
    match v.create_time {
        Some(t) => {
            assert(timestamp_text_inverts(t));
            assert(field_ts(JsonView::Str(timestamp_text(t.seconds, t.nanos))) == Some(t));
            assert(dec_secret_field(prev, "createTime"@, JsonView::Str(timestamp_text(t.seconds, t.nanos))) == Some(cur));
        assert(sg.len() == 1);
        assert(sg.skip(1).len() == 0);
        assert(dec_secret_entries(sg.skip(1), cur) == Some(cur));
        assert(dec_secret_entries(sg, prev) == Some(cur));
        },
        None => {
            assert(sg.len() == 0);
            assert(cur == prev);
            assert(dec_secret_entries(sg, prev) == Some(cur));
        },
    }
}

/// The `labels` entries of a secret decode onto a state whose own field
/// still has its default value by filling in exactly that field.
proof fn lemma_secret_rt_labels(v: crate::model::SecretView, prev: crate::model::SecretView)
    requires
        v.wf(),
        secret_text_facts(v),
        prev.labels == crate::model::SecretView::default_v().labels,
    ensures
        dec_secret_entries((if v.labels.len() == 0 { Seq::empty() } else { seq![("labels"@, JsonView::Obj(enc_strmap_entries(v.labels)))] }), prev) == Some(crate::model::SecretView { labels: v.labels, ..prev }),
{
    reveal_strlit("name");
    reveal_strlit("replication");
    reveal_strlit("createTime");
    reveal_strlit("labels");
    assert(("name"@).len() == 4);
    assert(("labels"@).len() == 6);
    assert("name"@ != "labels"@);
    assert(("replication"@).len() == 11);
    assert(("labels"@).len() == 6);
    assert("replication"@ != "labels"@);
    assert(("createTime"@).len() == 10);
    assert(("labels"@).len() == 6);
    assert("createTime"@ != "labels"@);
    let sg = (if v.labels.len() == 0 { Seq::empty() } else { seq![("labels"@, JsonView::Obj(enc_strmap_entries(v.labels)))] });
    let cur = crate::model::SecretView { labels: v.labels, ..prev };
    if v.labels.len() > 0 {
        assert(Seq::<(Seq<char>, Seq<char>)>::empty() + v.labels =~= v.labels);
        lemma_strmap_round_trip(v.labels, Seq::empty());
        assert(field_strmap(JsonView::Obj(enc_strmap_entries(v.labels))) == Some(v.labels));
        assert(dec_secret_field(prev, "labels"@, JsonView::Obj(enc_strmap_entries(v.labels))) == Some(cur));
        assert(sg.len() == 1);
        assert(sg.skip(1).len() == 0);
        assert(dec_secret_entries(sg.skip(1), cur) == Some(cur));
        assert(dec_secret_entries(sg, prev) == Some(cur));
    } else {
        assert(v.labels =~= Seq::<(Seq<char>, Seq<char>)>::empty());
        assert(sg.len() == 0);
        assert(cur == prev);
        assert(dec_secret_entries(sg, prev) == Some(cur));
    }
}

/// The `topics` entries of a secret decode onto a state whose own field
/// still has its default value by filling in exactly that field.
proof fn lemma_secret_rt_topics(v: crate::model::SecretView, prev: crate::model::SecretView)
    requires
        v.wf(),
        secret_text_facts(v),
    ensures
        dec_secret_entries(seq![("topics"@, JsonView::Arr(Seq::new(v.topics.len(), |i: int| enc_topic(v.topics[i]))))], prev) == Some(crate::model::SecretView { topics: v.topics, ..prev }),
{
    reveal_strlit("name");
    reveal_strlit("replication");
    reveal_strlit("createTime");
    reveal_strlit("labels");
    reveal_strlit("topics");
    assert(("name"@).len() == 4);
    assert(("topics"@).len() == 6);
    assert("name"@ != "topics"@);
    assert(("replication"@).len() == 11);
    assert(("topics"@).len() == 6);
    assert("replication"@ != "topics"@);
    assert(("createTime"@).len() == 10);
    assert(("topics"@).len() == 6);
    assert("createTime"@ != "topics"@);
    assert(("labels"@).len() == 6);
    assert(("topics"@).len() == 6);
    assert(("labels"@)[0] == 'l' && ("topics"@)[0] == 't');
    assert("labels"@ != "topics"@);
    let sg = seq![("topics"@, JsonView::Arr(Seq::new(v.topics.len(), |i: int| enc_topic(v.topics[i]))))];
    let cur = crate::model::SecretView { topics: v.topics, ..prev };
    {
        lemma_topic_arr_round_trip(v.topics);
        assert(dec_secret_field(prev, "topics"@, JsonView::Arr(Seq::new(v.topics.len(), |i: int| enc_topic(v.topics[i])))) == Some(cur));
        assert(sg.len() == 1);
        assert(sg.skip(1).len() == 0);
        assert(dec_secret_entries(sg.skip(1), cur) == Some(cur));
        assert(dec_secret_entries(sg, prev) == Some(cur));
    }
}

/// The `etag` entries of a secret decode onto a state whose own field
/// still has its default value by filling in exactly that field.
proof fn lemma_secret_rt_etag(v: crate::model::SecretView, prev: crate::model::SecretView)
    requires
        v.wf(),
        secret_text_facts(v),
    ensures
        dec_secret_entries(seq![("etag"@, JsonView::Str(v.etag))], prev) == Some(crate::model::SecretView { etag: v.etag, ..prev }),
{
    reveal_strlit("name");
    reveal_strlit("replication");
    reveal_strlit("createTime");
    reveal_strlit("labels");
    reveal_strlit("topics");
    reveal_strlit("etag");
    assert(("name"@).len() == 4);
    assert(("etag"@).len() == 4);
    assert(("name"@)[0] == 'n' && ("etag"@)[0] == 'e');
    assert("name"@ != "etag"@);
    assert(("replication"@).len() == 11);
    assert(("etag"@).len() == 4);
    assert("replication"@ != "etag"@);
    assert(("createTime"@).len() == 10);
    assert(("etag"@).len() == 4);
    assert("createTime"@ != "etag"@);
    assert(("labels"@).len() == 6);
    assert(("etag"@).len() == 4);
    assert("labels"@ != "etag"@);
    assert(("topics"@).len() == 6);
    assert(("etag"@).len() == 4);
    assert("topics"@ != "etag"@);
    let sg = seq![("etag"@, JsonView::Str(v.etag))];
    let cur = crate::model::SecretView { etag: v.etag, ..prev };
    {
        assert(dec_secret_field(prev, "etag"@, JsonView::Str(v.etag)) == Some(cur));
        assert(sg.len() == 1);
        assert(sg.skip(1).len() == 0);
        assert(dec_secret_entries(sg.skip(1), cur) == Some(cur));
        assert(dec_secret_entries(sg, prev) == Some(cur));
    }
}

/// The `rotation` entries of a secret decode onto a state whose own field
/// still has its default value by filling in exactly that field.
proof fn lemma_secret_rt_rotation(v: crate::model::SecretView, prev: crate::model::SecretView)
    requires
        v.wf(),
        secret_text_facts(v),
        prev.rotation == crate::model::SecretView::default_v().rotation,
    ensures
        dec_secret_entries((match v.rotation { Some(x) => seq![("rotation"@, enc_rotation(x))], None => Seq::empty() }), prev) == Some(crate::model::SecretView { rotation: v.rotation, ..prev }),
{
    reveal_strlit("name");
    reveal_strlit("replication");
    reveal_strlit("createTime");
    reveal_strlit("labels");
    reveal_strlit("topics");
    reveal_strlit("etag");
    reveal_strlit("rotation");
    assert(("name"@).len() == 4);
    assert(("rotation"@).len() == 8);
    assert("name"@ != "rotation"@);
    assert(("replication"@).len() == 11);
    assert(("rotation"@).len() == 8);
    assert("replication"@ != "rotation"@);
    assert(("createTime"@).len() == 10);
    assert(("rotation"@).len() == 8);
    assert("createTime"@ != "rotation"@);
    assert(("labels"@).len() == 6);
    assert(("rotation"@).len() == 8);
    assert("labels"@ != "rotation"@);
    assert(("topics"@).len() == 6);
    assert(("rotation"@).len() == 8);
    assert("topics"@ != "rotation"@);
    assert(("etag"@).len() == 4);
    assert(("rotation"@).len() == 8);
    assert("etag"@ != "rotation"@);
    let sg = (match v.rotation { Some(x) => seq![("rotation"@, enc_rotation(x))], None => Seq::empty() });
    let cur = crate::model::SecretView { rotation: v.rotation, ..prev };
    match v.rotation {
        Some(x) => {
            lemma_rotation_round_trip(x);
            assert(dec_secret_field(prev, "rotation"@, enc_rotation(x)) == Some(cur));
        assert(sg.len() == 1);
        assert(sg.skip(1).len() == 0);
        assert(dec_secret_entries(sg.skip(1), cur) == Some(cur));
        assert(dec_secret_entries(sg, prev) == Some(cur));
        },
        None => {
            assert(sg.len() == 0);
            assert(cur == prev);
            assert(dec_secret_entries(sg, prev) == Some(cur));
        },
    }
}

/// The `versionAliases` entries of a secret decode onto a state whose own field
/// still has its default value by filling in exactly that field.
proof fn lemma_secret_rt_version_aliases(v: crate::model::SecretView, prev: crate::model::SecretView)
    requires
        v.wf(),
        secret_text_facts(v),
        prev.version_aliases == crate::model::SecretView::default_v().version_aliases,
    ensures
        dec_secret_entries((if v.version_aliases.len() == 0 { Seq::empty() } else { seq![("versionAliases"@, JsonView::Obj(enc_i64map_entries(v.version_aliases)))] }), prev) == Some(crate::model::SecretView { version_aliases: v.version_aliases, ..prev }),
{
    reveal_strlit("name");
    reveal_strlit("replication");
    reveal_strlit("createTime");
    reveal_strlit("labels");
    reveal_strlit("topics");
    reveal_strlit("etag");
    reveal_strlit("rotation");
    reveal_strlit("versionAliases");
    assert(("name"@).len() == 4);
    assert(("versionAliases"@).len() == 14);
    assert("name"@ != "versionAliases"@);
    assert(("replication"@).len() == 11);
    assert(("versionAliases"@).len() == 14);
    assert("replication"@ != "versionAliases"@);
    assert(("createTime"@).len() == 10);
    assert(("versionAliases"@).len() == 14);
    assert("createTime"@ != "versionAliases"@);
    assert(("labels"@).len() == 6);
    assert(("versionAliases"@).len() == 14);
    assert("labels"@ != "versionAliases"@);
    assert(("topics"@).len() == 6);
    assert(("versionAliases"@).len() == 14);
    assert("topics"@ != "versionAliases"@);
    assert(("etag"@).len() == 4);
    assert(("versionAliases"@).len() == 14);
    assert("etag"@ != "versionAliases"@);
    assert(("rotation"@).len() == 8);
    assert(("versionAliases"@).len() == 14);
    assert("rotation"@ != "versionAliases"@);
    let sg = (if v.version_aliases.len() == 0 { Seq::empty() } else { seq![("versionAliases"@, JsonView::Obj(enc_i64map_entries(v.version_aliases)))] });
    let cur = crate::model::SecretView { version_aliases: v.version_aliases, ..prev };
    if v.version_aliases.len() > 0 {
        assert(Seq::<(Seq<char>, i64)>::empty() + v.version_aliases =~= v.version_aliases);
        lemma_i64map_round_trip(v.version_aliases, Seq::empty());
        assert(field_i64map(JsonView::Obj(enc_i64map_entries(v.version_aliases))) == Some(v.version_aliases));
        assert(dec_secret_field(prev, "versionAliases"@, JsonView::Obj(enc_i64map_entries(v.version_aliases))) == Some(cur));
        assert(sg.len() == 1);
        assert(sg.skip(1).len() == 0);
        assert(dec_secret_entries(sg.skip(1), cur) == Some(cur));
        assert(dec_secret_entries(sg, prev) == Some(cur));
    } else {
        assert(v.version_aliases =~= Seq::<(Seq<char>, i64)>::empty());
        assert(sg.len() == 0);
        assert(cur == prev);
        assert(dec_secret_entries(sg, prev) == Some(cur));
    }
}

/// The `annotations` entries of a secret decode onto a state whose own field
/// still has its default value by filling in exactly that field.
proof fn lemma_secret_rt_annotations(v: crate::model::SecretView, prev: crate::model::SecretView)
    requires
        v.wf(),
        secret_text_facts(v),
        prev.annotations == crate::model::SecretView::default_v().annotations,
    ensures
        dec_secret_entries((if v.annotations.len() == 0 { Seq::empty() } else { seq![("annotations"@, JsonView::Obj(enc_strmap_entries(v.annotations)))] }), prev) == Some(crate::model::SecretView { annotations: v.annotations, ..prev }),
{
    reveal_strlit("name");
    reveal_strlit("replication");
    reveal_strlit("createTime");
    reveal_strlit("labels");
    reveal_strlit("topics");
    reveal_strlit("etag");
    reveal_strlit("rotation");
    reveal_strlit("versionAliases");
    reveal_strlit("annotations");
    assert(("name"@).len() == 4);
    assert(("annotations"@).len() == 11);
    assert("name"@ != "annotations"@);
    assert(("replication"@).len() == 11);
    assert(("annotations"@).len() == 11);
    assert(("replication"@)[0] == 'r' && ("annotations"@)[0] == 'a');
    assert("replication"@ != "annotations"@);
    assert(("createTime"@).len() == 10);
    assert(("annotations"@).len() == 11);
    assert("createTime"@ != "annotations"@);
    assert(("labels"@).len() == 6);
    assert(("annotations"@).len() == 11);
    assert("labels"@ != "annotations"@);
    assert(("topics"@).len() == 6);
    assert(("annotations"@).len() == 11);
    assert("topics"@ != "annotations"@);
    assert(("etag"@).len() == 4);
    assert(("annotations"@).len() == 11);
    assert("etag"@ != "annotations"@);
    assert(("rotation"@).len() == 8);
    assert(("annotations"@).len() == 11);
    assert("rotation"@ != "annotations"@);
    assert(("versionAliases"@).len() == 14);
    assert(("annotations"@).len() == 11);
    assert("versionAliases"@ != "annotations"@);
    let sg = (if v.annotations.len() == 0 { Seq::empty() } else { seq![("annotations"@, JsonView::Obj(enc_strmap_entries(v.annotations)))] });
    let cur = crate::model::SecretView { annotations: v.annotations, ..prev };
    if v.annotations.len() > 0 {
        assert(Seq::<(Seq<char>, Seq<char>)>::empty() + v.annotations =~= v.annotations);
        lemma_strmap_round_trip(v.annotations, Seq::empty());
        assert(field_strmap(JsonView::Obj(enc_strmap_entries(v.annotations))) == Some(v.annotations));
        assert(dec_secret_field(prev, "annotations"@, JsonView::Obj(enc_strmap_entries(v.annotations))) == Some(cur));
        assert(sg.len() == 1);
        assert(sg.skip(1).len() == 0);
        assert(dec_secret_entries(sg.skip(1), cur) == Some(cur));
        assert(dec_secret_entries(sg, prev) == Some(cur));
    } else {
        assert(v.annotations =~= Seq::<(Seq<char>, Seq<char>)>::empty());
        assert(sg.len() == 0);
        assert(cur == prev);
        assert(dec_secret_entries(sg, prev) == Some(cur));
    }
}

/// The `versionDestroyTtl` entries of a secret decode onto a state whose own field
/// still has its default value by filling in exactly that field.
proof fn lemma_secret_rt_version_destroy_ttl(v: crate::model::SecretView, prev: crate::model::SecretView)
    requires
        v.wf(),
        secret_text_facts(v),
        prev.version_destroy_ttl == crate::model::SecretView::default_v().version_destroy_ttl,
    ensures
        dec_secret_entries((match v.version_destroy_ttl { Some(d) => seq![("versionDestroyTtl"@, JsonView::Str(duration_text(d.seconds, d.nanos)))], None => Seq::empty() }), prev) == Some(crate::model::SecretView { version_destroy_ttl: v.version_destroy_ttl, ..prev }),
{
    reveal_strlit("name");
    reveal_strlit("replication");
    reveal_strlit("createTime");
    reveal_strlit("labels");
    reveal_strlit("topics");
    reveal_strlit("etag");
    reveal_strlit("rotation");
    reveal_strlit("versionAliases");
    reveal_strlit("annotations");
    reveal_strlit("versionDestroyTtl");
    assert(("name"@).len() == 4);
    assert(("versionDestroyTtl"@).len() == 17);
    assert("name"@ != "versionDestroyTtl"@);
    assert(("replication"@).len() == 11);
    assert(("versionDestroyTtl"@).len() == 17);
    assert("replication"@ != "versionDestroyTtl"@);
    assert(("createTime"@).len() == 10);
    assert(("versionDestroyTtl"@).len() == 17);
    assert("createTime"@ != "versionDestroyTtl"@);
    assert(("labels"@).len() == 6);
    assert(("versionDestroyTtl"@).len() == 17);
    assert("labels"@ != "versionDestroyTtl"@);
    assert(("topics"@).len() == 6);
    assert(("versionDestroyTtl"@).len() == 17);
    assert("topics"@ != "versionDestroyTtl"@);
    assert(("etag"@).len() == 4);
    assert(("versionDestroyTtl"@).len() == 17);
    assert("etag"@ != "versionDestroyTtl"@);
    assert(("rotation"@).len() == 8);
    assert(("versionDestroyTtl"@).len() == 17);
    assert("rotation"@ != "versionDestroyTtl"@);
    assert(("versionAliases"@).len() == 14);
    assert(("versionDestroyTtl"@).len() == 17);
    assert("versionAliases"@ != "versionDestroyTtl"@);
    assert(("annotations"@).len() == 11);
    assert(("versionDestroyTtl"@).len() == 17);
    assert("annotations"@ != "versionDestroyTtl"@);
    let sg = (match v.version_destroy_ttl { Some(d) => seq![("versionDestroyTtl"@, JsonView::Str(duration_text(d.seconds, d.nanos)))], None => Seq::empty() });
    let cur = crate::model::SecretView { version_destroy_ttl: v.version_destroy_ttl, ..prev };
    match v.version_destroy_ttl {
        Some(d) => {
            crate::wellknown::lemma_duration_text_round_trip(d.seconds, d.nanos);
            assert(field_dur(JsonView::Str(duration_text(d.seconds, d.nanos))) == Some(d));
            assert(dec_secret_field(prev, "versionDestroyTtl"@, JsonView::Str(duration_text(d.seconds, d.nanos))) == Some(cur));
        assert(sg.len() == 1);
        assert(sg.skip(1).len() == 0);
        assert(dec_secret_entries(sg.skip(1), cur) == Some(cur));
        assert(dec_secret_entries(sg, prev) == Some(cur));
        },
        None => {
            assert(sg.len() == 0);
            assert(cur == prev);
            assert(dec_secret_entries(sg, prev) == Some(cur));
        },
    }
}

/// The `customerManagedEncryption` entries of a secret decode onto a state whose own field
/// still has its default value by filling in exactly that field.
proof fn lemma_secret_rt_customer_managed_encryption(v: crate::model::SecretView, prev: crate::model::SecretView)
    requires
        v.wf(),
        secret_text_facts(v),
        prev.customer_managed_encryption == crate::model::SecretView::default_v().customer_managed_encryption,
    ensures
        dec_secret_entries((match v.customer_managed_encryption { Some(x) => seq![("customerManagedEncryption"@, enc_customer_managed_encryption(x))], None => Seq::empty() }), prev) == Some(crate::model::SecretView { customer_managed_encryption: v.customer_managed_encryption, ..prev }),
{
    reveal_strlit("name");
    reveal_strlit("replication");
    reveal_strlit("createTime");
    reveal_strlit("labels");
    reveal_strlit("topics");
    reveal_strlit("etag");
    reveal_strlit("rotation");
    reveal_strlit("versionAliases");
    reveal_strlit("annotations");
    reveal_strlit("versionDestroyTtl");
    reveal_strlit("customerManagedEncryption");
    assert(("name"@).len() == 4);
    assert(("customerManagedEncryption"@).len() == 25);
    assert("name"@ != "customerManagedEncryption"@);
    assert(("replication"@).len() == 11);
    assert(("customerManagedEncryption"@).len() == 25);
    assert("replication"@ != "customerManagedEncryption"@);
    assert(("createTime"@).len() == 10);
    assert(("customerManagedEncryption"@).len() == 25);
    assert("createTime"@ != "customerManagedEncryption"@);
    assert(("labels"@).len() == 6);
    assert(("customerManagedEncryption"@).len() == 25);
    assert("labels"@ != "customerManagedEncryption"@);
    assert(("topics"@).len() == 6);
    assert(("customerManagedEncryption"@).len() == 25);
    assert("topics"@ != "customerManagedEncryption"@);
    assert(("etag"@).len() == 4);
    assert(("customerManagedEncryption"@).len() == 25);
    assert("etag"@ != "customerManagedEncryption"@);
    assert(("rotation"@).len() == 8);
    assert(("customerManagedEncryption"@).len() == 25);
    assert("rotation"@ != "customerManagedEncryption"@);
    assert(("versionAliases"@).len() == 14);
    assert(("customerManagedEncryption"@).len() == 25);
    assert("versionAliases"@ != "customerManagedEncryption"@);
    assert(("annotations"@).len() == 11);
    assert(("customerManagedEncryption"@).len() == 25);
    assert("annotations"@ != "customerManagedEncryption"@);
    assert(("versionDestroyTtl"@).len() == 17);
    assert(("customerManagedEncryption"@).len() == 25);
    assert("versionDestroyTtl"@ != "customerManagedEncryption"@);
    let sg = (match v.customer_managed_encryption { Some(x) => seq![("customerManagedEncryption"@, enc_customer_managed_encryption(x))], None => Seq::empty() });
    let cur = crate::model::SecretView { customer_managed_encryption: v.customer_managed_encryption, ..prev };
    match v.customer_managed_encryption {
        Some(x) => {
            lemma_customer_managed_encryption_round_trip(x);
            assert(dec_secret_field(prev, "customerManagedEncryption"@, enc_customer_managed_encryption(x)) == Some(cur));
        assert(sg.len() == 1);
        assert(sg.skip(1).len() == 0);
        assert(dec_secret_entries(sg.skip(1), cur) == Some(cur));
        assert(dec_secret_entries(sg, prev) == Some(cur));
        },
        None => {
            assert(sg.len() == 0);
            assert(cur == prev);
            assert(dec_secret_entries(sg, prev) == Some(cur));
        },
    }
}

/// The `expiration` entries of a secret decode onto a state whose own field
/// still has its default value by filling in exactly that field.
proof fn lemma_secret_rt_expiration(v: crate::model::SecretView, prev: crate::model::SecretView)
    requires
        v.wf(),
        secret_text_facts(v),
        prev.expiration == crate::model::SecretView::default_v().expiration,
    ensures
        dec_secret_entries((match v.expiration { Some(x) => seq![("expiration"@, enc_expiration(x))], None => Seq::empty() }), prev) == Some(crate::model::SecretView { expiration: v.expiration, ..prev }),
{
    reveal_strlit("name");
    reveal_strlit("replication");
    reveal_strlit("createTime");
    reveal_strlit("labels");
    reveal_strlit("topics");
    reveal_strlit("etag");
    reveal_strlit("rotation");
    reveal_strlit("versionAliases");
    reveal_strlit("annotations");
    reveal_strlit("versionDestroyTtl");
    reveal_strlit("customerManagedEncryption");
    reveal_strlit("expiration");
    assert(("name"@).len() == 4);
    assert(("expiration"@).len() == 10);
    assert("name"@ != "expiration"@);
    assert(("replication"@).len() == 11);
    assert(("expiration"@).len() == 10);
    assert("replication"@ != "expiration"@);
    assert(("createTime"@).len() == 10);
    assert(("expiration"@).len() == 10);
    assert(("createTime"@)[0] == 'c' && ("expiration"@)[0] == 'e');
    assert("createTime"@ != "expiration"@);
    assert(("labels"@).len() == 6);
    assert(("expiration"@).len() == 10);
    assert("labels"@ != "expiration"@);
    assert(("topics"@).len() == 6);
    assert(("expiration"@).len() == 10);
    assert("topics"@ != "expiration"@);
    assert(("etag"@).len() == 4);
    assert(("expiration"@).len() == 10);
    assert("etag"@ != "expiration"@);
    assert(("rotation"@).len() == 8);
    assert(("expiration"@).len() == 10);
    assert("rotation"@ != "expiration"@);
    assert(("versionAliases"@).len() == 14);
    assert(("expiration"@).len() == 10);
    assert("versionAliases"@ != "expiration"@);
    assert(("annotations"@).len() == 11);
    assert(("expiration"@).len() == 10);
    assert("annotations"@ != "expiration"@);
    assert(("versionDestroyTtl"@).len() == 17);
    assert(("expiration"@).len() == 10);
    assert("versionDestroyTtl"@ != "expiration"@);
    assert(("customerManagedEncryption"@).len() == 25);
    assert(("expiration"@).len() == 10);
    assert("customerManagedEncryption"@ != "expiration"@);
    let sg = (match v.expiration { Some(x) => seq![("expiration"@, enc_expiration(x))], None => Seq::empty() });
    let cur = crate::model::SecretView { expiration: v.expiration, ..prev };
    match v.expiration {
        Some(x) => {
            lemma_expiration_round_trip(x);
            assert(dec_secret_field(prev, "expiration"@, enc_expiration(x)) == Some(cur));
        assert(sg.len() == 1);
        assert(sg.skip(1).len() == 0);
        assert(dec_secret_entries(sg.skip(1), cur) == Some(cur));
        assert(dec_secret_entries(sg, prev) == Some(cur));
        },
        None => {
            assert(sg.len() == 0);
            assert(cur == prev);
            assert(dec_secret_entries(sg, prev) == Some(cur));
        },
    }
}


/// One stretch of the fields of a secret, decoded in order.
#[verifier::rlimit(100)]
proof fn lemma_secret_rt_part1(v: crate::model::SecretView)
    requires
        v.wf(),
        secret_text_facts(v),
    ensures
        dec_secret_entries(seq![("name"@, JsonView::Str(v.name))] + ((match v.replication { Some(x) => seq![("replication"@, enc_replication(x))], None => Seq::empty() }) + ((match v.create_time { Some(t) => seq![("createTime"@, JsonView::Str(timestamp_text(t.seconds, t.nanos)))], None => Seq::empty() }) + ((if v.labels.len() == 0 { Seq::empty() } else { seq![("labels"@, JsonView::Obj(enc_strmap_entries(v.labels)))] }) + (seq![("topics"@, JsonView::Arr(Seq::new(v.topics.len(), |i: int| enc_topic(v.topics[i]))))] + (seq![("etag"@, JsonView::Str(v.etag))] + ((match v.rotation { Some(x) => seq![("rotation"@, enc_rotation(x))], None => Seq::empty() }) + ((if v.version_aliases.len() == 0 { Seq::empty() } else { seq![("versionAliases"@, JsonView::Obj(enc_i64map_entries(v.version_aliases)))] }) + ((if v.annotations.len() == 0 { Seq::empty() } else { seq![("annotations"@, JsonView::Obj(enc_strmap_entries(v.annotations)))] }) + ((match v.version_destroy_ttl { Some(d) => seq![("versionDestroyTtl"@, JsonView::Str(duration_text(d.seconds, d.nanos)))], None => Seq::empty() }) + ((match v.customer_managed_encryption { Some(x) => seq![("customerManagedEncryption"@, enc_customer_managed_encryption(x))], None => Seq::empty() }) + ((match v.expiration { Some(x) => seq![("expiration"@, enc_expiration(x))], None => Seq::empty() })))))))))))), crate::model::SecretView::default_v()) == dec_secret_entries(seq![("topics"@, JsonView::Arr(Seq::new(v.topics.len(), |i: int| enc_topic(v.topics[i]))))] + (seq![("etag"@, JsonView::Str(v.etag))] + ((match v.rotation { Some(x) => seq![("rotation"@, enc_rotation(x))], None => Seq::empty() }) + ((if v.version_aliases.len() == 0 { Seq::empty() } else { seq![("versionAliases"@, JsonView::Obj(enc_i64map_entries(v.version_aliases)))] }) + ((if v.annotations.len() == 0 { Seq::empty() } else { seq![("annotations"@, JsonView::Obj(enc_strmap_entries(v.annotations)))] }) + ((match v.version_destroy_ttl { Some(d) => seq![("versionDestroyTtl"@, JsonView::Str(duration_text(d.seconds, d.nanos)))], None => Seq::empty() }) + ((match v.customer_managed_encryption { Some(x) => seq![("customerManagedEncryption"@, enc_customer_managed_encryption(x))], None => Seq::empty() }) + ((match v.expiration { Some(x) => seq![("expiration"@, enc_expiration(x))], None => Seq::empty() })))))))), crate::model::SecretView { labels: v.labels, ..crate::model::SecretView { create_time: v.create_time, ..crate::model::SecretView { replication: v.replication, ..crate::model::SecretView { name: v.name, ..crate::model::SecretView::default_v() } } } }),
{
    let s1 = seq![("name"@, JsonView::Str(v.name))];
    let s2 = (match v.replication { Some(x) => seq![("replication"@, enc_replication(x))], None => Seq::empty() });
    let s3 = (match v.create_time { Some(t) => seq![("createTime"@, JsonView::Str(timestamp_text(t.seconds, t.nanos)))], None => Seq::empty() });
    let s4 = (if v.labels.len() == 0 { Seq::empty() } else { seq![("labels"@, JsonView::Obj(enc_strmap_entries(v.labels)))] });
    let s5 = seq![("topics"@, JsonView::Arr(Seq::new(v.topics.len(), |i: int| enc_topic(v.topics[i]))))];
    let s6 = seq![("etag"@, JsonView::Str(v.etag))];
    let s7 = (match v.rotation { Some(x) => seq![("rotation"@, enc_rotation(x))], None => Seq::empty() });
    let s8 = (if v.version_aliases.len() == 0 { Seq::empty() } else { seq![("versionAliases"@, JsonView::Obj(enc_i64map_entries(v.version_aliases)))] });
    let s9 = (if v.annotations.len() == 0 { Seq::empty() } else { seq![("annotations"@, JsonView::Obj(enc_strmap_entries(v.annotations)))] });
    let s10 = (match v.version_destroy_ttl { Some(d) => seq![("versionDestroyTtl"@, JsonView::Str(duration_text(d.seconds, d.nanos)))], None => Seq::empty() });
    let s11 = (match v.customer_managed_encryption { Some(x) => seq![("customerManagedEncryption"@, enc_customer_managed_encryption(x))], None => Seq::empty() });
    let s12 = (match v.expiration { Some(x) => seq![("expiration"@, enc_expiration(x))], None => Seq::empty() });
    let t12 = s12;
    let t11 = s11 + t12;
    let t10 = s10 + t11;
    let t9 = s9 + t10;
    let t8 = s8 + t9;
    let t7 = s7 + t8;
    let t6 = s6 + t7;
    let t5 = s5 + t6;
    let t4 = s4 + t5;
    let t3 = s3 + t4;
    let t2 = s2 + t3;
    let t1 = s1 + t2;
    let a0 = crate::model::SecretView::default_v();
    let a1 = crate::model::SecretView { name: v.name, ..a0 };
    let a2 = crate::model::SecretView { replication: v.replication, ..a1 };
    let a3 = crate::model::SecretView { create_time: v.create_time, ..a2 };
    let a4 = crate::model::SecretView { labels: v.labels, ..a3 };
    lemma_secret_rt_name(v, a0);
    lemma_dec_secret_entries_concat(s1, t2, a0);
    assert(dec_secret_entries(t1, a0) == dec_secret_entries(t2, a1));
    lemma_secret_rt_replication(v, a1);
    lemma_dec_secret_entries_concat(s2, t3, a1);
    assert(dec_secret_entries(t2, a1) == dec_secret_entries(t3, a2));
    lemma_secret_rt_create_time(v, a2);
    lemma_dec_secret_entries_concat(s3, t4, a2);
    assert(dec_secret_entries(t3, a2) == dec_secret_entries(t4, a3));
    lemma_secret_rt_labels(v, a3);
    lemma_dec_secret_entries_concat(s4, t5, a3);
    assert(dec_secret_entries(t4, a3) == dec_secret_entries(t5, a4));
}

/// One stretch of the fields of a secret, decoded in order.
#[verifier::rlimit(100)]
proof fn lemma_secret_rt_part2(v: crate::model::SecretView)
    requires
        v.wf(),
        secret_text_facts(v),
    ensures
        dec_secret_entries(seq![("topics"@, JsonView::Arr(Seq::new(v.topics.len(), |i: int| enc_topic(v.topics[i]))))] + (seq![("etag"@, JsonView::Str(v.etag))] + ((match v.rotation { Some(x) => seq![("rotation"@, enc_rotation(x))], None => Seq::empty() }) + ((if v.version_aliases.len() == 0 { Seq::empty() } else { seq![("versionAliases"@, JsonView::Obj(enc_i64map_entries(v.version_aliases)))] }) + ((if v.annotations.len() == 0 { Seq::empty() } else { seq![("annotations"@, JsonView::Obj(enc_strmap_entries(v.annotations)))] }) + ((match v.version_destroy_ttl { Some(d) => seq![("versionDestroyTtl"@, JsonView::Str(duration_text(d.seconds, d.nanos)))], None => Seq::empty() }) + ((match v.customer_managed_encryption { Some(x) => seq![("customerManagedEncryption"@, enc_customer_managed_encryption(x))], None => Seq::empty() }) + ((match v.expiration { Some(x) => seq![("expiration"@, enc_expiration(x))], None => Seq::empty() })))))))), crate::model::SecretView { labels: v.labels, ..crate::model::SecretView { create_time: v.create_time, ..crate::model::SecretView { replication: v.replication, ..crate::model::SecretView { name: v.name, ..crate::model::SecretView::default_v() } } } }) == dec_secret_entries((if v.annotations.len() == 0 { Seq::empty() } else { seq![("annotations"@, JsonView::Obj(enc_strmap_entries(v.annotations)))] }) + ((match v.version_destroy_ttl { Some(d) => seq![("versionDestroyTtl"@, JsonView::Str(duration_text(d.seconds, d.nanos)))], None => Seq::empty() }) + ((match v.customer_managed_encryption { Some(x) => seq![("customerManagedEncryption"@, enc_customer_managed_encryption(x))], None => Seq::empty() }) + ((match v.expiration { Some(x) => seq![("expiration"@, enc_expiration(x))], None => Seq::empty() })))), crate::model::SecretView { version_aliases: v.version_aliases, ..crate::model::SecretView { rotation: v.rotation, ..crate::model::SecretView { etag: v.etag, ..crate::model::SecretView { topics: v.topics, ..crate::model::SecretView { labels: v.labels, ..crate::model::SecretView { create_time: v.create_time, ..crate::model::SecretView { replication: v.replication, ..crate::model::SecretView { name: v.name, ..crate::model::SecretView::default_v() } } } } } } } }),
{
    let s5 = seq![("topics"@, JsonView::Arr(Seq::new(v.topics.len(), |i: int| enc_topic(v.topics[i]))))];
    let s6 = seq![("etag"@, JsonView::Str(v.etag))];
    let s7 = (match v.rotation { Some(x) => seq![("rotation"@, enc_rotation(x))], None => Seq::empty() });
    let s8 = (if v.version_aliases.len() == 0 { Seq::empty() } else { seq![("versionAliases"@, JsonView::Obj(enc_i64map_entries(v.version_aliases)))] });
    let s9 = (if v.annotations.len() == 0 { Seq::empty() } else { seq![("annotations"@, JsonView::Obj(enc_strmap_entries(v.annotations)))] });
    let s10 = (match v.version_destroy_ttl { Some(d) => seq![("versionDestroyTtl"@, JsonView::Str(duration_text(d.seconds, d.nanos)))], None => Seq::empty() });
    let s11 = (match v.customer_managed_encryption { Some(x) => seq![("customerManagedEncryption"@, enc_customer_managed_encryption(x))], None => Seq::empty() });
    let s12 = (match v.expiration { Some(x) => seq![("expiration"@, enc_expiration(x))], None => Seq::empty() });
    let t12 = s12;
    let t11 = s11 + t12;
    let t10 = s10 + t11;
    let t9 = s9 + t10;
    let t8 = s8 + t9;
    let t7 = s7 + t8;
    let t6 = s6 + t7;
    let t5 = s5 + t6;
    let a0 = crate::model::SecretView::default_v();
    let a1 = crate::model::SecretView { name: v.name, ..a0 };
    let a2 = crate::model::SecretView { replication: v.replication, ..a1 };
    let a3 = crate::model::SecretView { create_time: v.create_time, ..a2 };
    let a4 = crate::model::SecretView { labels: v.labels, ..a3 };
    let a5 = crate::model::SecretView { topics: v.topics, ..a4 };
    let a6 = crate::model::SecretView { etag: v.etag, ..a5 };
    let a7 = crate::model::SecretView { rotation: v.rotation, ..a6 };
    let a8 = crate::model::SecretView { version_aliases: v.version_aliases, ..a7 };
    lemma_secret_rt_topics(v, a4);
    lemma_dec_secret_entries_concat(s5, t6, a4);
    assert(dec_secret_entries(t5, a4) == dec_secret_entries(t6, a5));
    lemma_secret_rt_etag(v, a5);
    lemma_dec_secret_entries_concat(s6, t7, a5);
    assert(dec_secret_entries(t6, a5) == dec_secret_entries(t7, a6));
    lemma_secret_rt_rotation(v, a6);
    lemma_dec_secret_entries_concat(s7, t8, a6);
    assert(dec_secret_entries(t7, a6) == dec_secret_entries(t8, a7));
    lemma_secret_rt_version_aliases(v, a7);
    lemma_dec_secret_entries_concat(s8, t9, a7);
    assert(dec_secret_entries(t8, a7) == dec_secret_entries(t9, a8));
}

/// One stretch of the fields of a secret, decoded in order.
#[verifier::rlimit(100)]
proof fn lemma_secret_rt_part3(v: crate::model::SecretView)
    requires
        v.wf(),
        secret_text_facts(v),
    ensures
        dec_secret_entries((if v.annotations.len() == 0 { Seq::empty() } else { seq![("annotations"@, JsonView::Obj(enc_strmap_entries(v.annotations)))] }) + ((match v.version_destroy_ttl { Some(d) => seq![("versionDestroyTtl"@, JsonView::Str(duration_text(d.seconds, d.nanos)))], None => Seq::empty() }) + ((match v.customer_managed_encryption { Some(x) => seq![("customerManagedEncryption"@, enc_customer_managed_encryption(x))], None => Seq::empty() }) + ((match v.expiration { Some(x) => seq![("expiration"@, enc_expiration(x))], None => Seq::empty() })))), crate::model::SecretView { version_aliases: v.version_aliases, ..crate::model::SecretView { rotation: v.rotation, ..crate::model::SecretView { etag: v.etag, ..crate::model::SecretView { topics: v.topics, ..crate::model::SecretView { labels: v.labels, ..crate::model::SecretView { create_time: v.create_time, ..crate::model::SecretView { replication: v.replication, ..crate::model::SecretView { name: v.name, ..crate::model::SecretView::default_v() } } } } } } } }) == Some(crate::model::SecretView { expiration: v.expiration, ..crate::model::SecretView { customer_managed_encryption: v.customer_managed_encryption, ..crate::model::SecretView { version_destroy_ttl: v.version_destroy_ttl, ..crate::model::SecretView { annotations: v.annotations, ..crate::model::SecretView { version_aliases: v.version_aliases, ..crate::model::SecretView { rotation: v.rotation, ..crate::model::SecretView { etag: v.etag, ..crate::model::SecretView { topics: v.topics, ..crate::model::SecretView { labels: v.labels, ..crate::model::SecretView { create_time: v.create_time, ..crate::model::SecretView { replication: v.replication, ..crate::model::SecretView { name: v.name, ..crate::model::SecretView::default_v() } } } } } } } } } } } }),
{
    let s9 = (if v.annotations.len() == 0 { Seq::empty() } else { seq![("annotations"@, JsonView::Obj(enc_strmap_entries(v.annotations)))] });
    let s10 = (match v.version_destroy_ttl { Some(d) => seq![("versionDestroyTtl"@, JsonView::Str(duration_text(d.seconds, d.nanos)))], None => Seq::empty() });
    let s11 = (match v.customer_managed_encryption { Some(x) => seq![("customerManagedEncryption"@, enc_customer_managed_encryption(x))], None => Seq::empty() });
    let s12 = (match v.expiration { Some(x) => seq![("expiration"@, enc_expiration(x))], None => Seq::empty() });
    let t12 = s12;
    let t11 = s11 + t12;
    let t10 = s10 + t11;
    let t9 = s9 + t10;
    let a0 = crate::model::SecretView::default_v();
    let a1 = crate::model::SecretView { name: v.name, ..a0 };
    let a2 = crate::model::SecretView { replication: v.replication, ..a1 };
    let a3 = crate::model::SecretView { create_time: v.create_time, ..a2 };
    let a4 = crate::model::SecretView { labels: v.labels, ..a3 };
    let a5 = crate::model::SecretView { topics: v.topics, ..a4 };
    let a6 = crate::model::SecretView { etag: v.etag, ..a5 };
    let a7 = crate::model::SecretView { rotation: v.rotation, ..a6 };
    let a8 = crate::model::SecretView { version_aliases: v.version_aliases, ..a7 };
    let a9 = crate::model::SecretView { annotations: v.annotations, ..a8 };
    let a10 = crate::model::SecretView { version_destroy_ttl: v.version_destroy_ttl, ..a9 };
    let a11 = crate::model::SecretView { customer_managed_encryption: v.customer_managed_encryption, ..a10 };
    let a12 = crate::model::SecretView { expiration: v.expiration, ..a11 };
    lemma_secret_rt_annotations(v, a8);
    lemma_dec_secret_entries_concat(s9, t10, a8);
    assert(dec_secret_entries(t9, a8) == dec_secret_entries(t10, a9));
    lemma_secret_rt_version_destroy_ttl(v, a9);
    lemma_dec_secret_entries_concat(s10, t11, a9);
    assert(dec_secret_entries(t10, a9) == dec_secret_entries(t11, a10));
    lemma_secret_rt_customer_managed_encryption(v, a10);
    lemma_dec_secret_entries_concat(s11, t12, a10);
    assert(dec_secret_entries(t11, a10) == dec_secret_entries(t12, a11));
    lemma_secret_rt_expiration(v, a11);
    assert(dec_secret_entries(t12, a11) == Some(a12));
}

/// The schema-order entry list, reassociated for segment-by-segment
/// decoding.
#[verifier::rlimit(100)]
proof fn lemma_secret_entries_assoc(v: crate::model::SecretView)
    ensures
        enc_secret_entries(v) == seq![("name"@, JsonView::Str(v.name))] + ((match v.replication { Some(x) => seq![("replication"@, enc_replication(x))], None => Seq::empty() }) + ((match v.create_time { Some(t) => seq![("createTime"@, JsonView::Str(timestamp_text(t.seconds, t.nanos)))], None => Seq::empty() }) + ((if v.labels.len() == 0 { Seq::empty() } else { seq![("labels"@, JsonView::Obj(enc_strmap_entries(v.labels)))] }) + (seq![("topics"@, JsonView::Arr(Seq::new(v.topics.len(), |i: int| enc_topic(v.topics[i]))))] + (seq![("etag"@, JsonView::Str(v.etag))] + ((match v.rotation { Some(x) => seq![("rotation"@, enc_rotation(x))], None => Seq::empty() }) + ((if v.version_aliases.len() == 0 { Seq::empty() } else { seq![("versionAliases"@, JsonView::Obj(enc_i64map_entries(v.version_aliases)))] }) + ((if v.annotations.len() == 0 { Seq::empty() } else { seq![("annotations"@, JsonView::Obj(enc_strmap_entries(v.annotations)))] }) + ((match v.version_destroy_ttl { Some(d) => seq![("versionDestroyTtl"@, JsonView::Str(duration_text(d.seconds, d.nanos)))], None => Seq::empty() }) + ((match v.customer_managed_encryption { Some(x) => seq![("customerManagedEncryption"@, enc_customer_managed_encryption(x))], None => Seq::empty() }) + ((match v.expiration { Some(x) => seq![("expiration"@, enc_expiration(x))], None => Seq::empty() })))))))))))),
{
    let s1 = seq![("name"@, JsonView::Str(v.name))];
    let s2 = (match v.replication { Some(x) => seq![("replication"@, enc_replication(x))], None => Seq::empty() });
    let s3 = (match v.create_time { Some(t) => seq![("createTime"@, JsonView::Str(timestamp_text(t.seconds, t.nanos)))], None => Seq::empty() });
    let s4 = (if v.labels.len() == 0 { Seq::empty() } else { seq![("labels"@, JsonView::Obj(enc_strmap_entries(v.labels)))] });
    let s5 = seq![("topics"@, JsonView::Arr(Seq::new(v.topics.len(), |i: int| enc_topic(v.topics[i]))))];
    let s6 = seq![("etag"@, JsonView::Str(v.etag))];
    let s7 = (match v.rotation { Some(x) => seq![("rotation"@, enc_rotation(x))], None => Seq::empty() });
    let s8 = (if v.version_aliases.len() == 0 { Seq::empty() } else { seq![("versionAliases"@, JsonView::Obj(enc_i64map_entries(v.version_aliases)))] });
    let s9 = (if v.annotations.len() == 0 { Seq::empty() } else { seq![("annotations"@, JsonView::Obj(enc_strmap_entries(v.annotations)))] });
    let s10 = (match v.version_destroy_ttl { Some(d) => seq![("versionDestroyTtl"@, JsonView::Str(duration_text(d.seconds, d.nanos)))], None => Seq::empty() });
    let s11 = (match v.customer_managed_encryption { Some(x) => seq![("customerManagedEncryption"@, enc_customer_managed_encryption(x))], None => Seq::empty() });
    let s12 = (match v.expiration { Some(x) => seq![("expiration"@, enc_expiration(x))], None => Seq::empty() });
    let t12 = s12;
    let t11 = s11 + t12;
    let t10 = s10 + t11;
    let t9 = s9 + t10;
    let t8 = s8 + t9;
    let t7 = s7 + t8;
    let t6 = s6 + t7;
    let t5 = s5 + t6;
    let t4 = s4 + t5;
    let t3 = s3 + t4;
    let t2 = s2 + t3;
    let t1 = s1 + t2;
    let l1 = s1;
    let l2 = l1 + s2;
    let l3 = l2 + s3;
    let l4 = l3 + s4;
    let l5 = l4 + s5;
    let l6 = l5 + s6;
    let l7 = l6 + s7;
    let l8 = l7 + s8;
    let l9 = l8 + s9;
    let l10 = l9 + s10;
    let l11 = l10 + s11;
    let l12 = l11 + s12;
    assert(l1 + t2 == t1);
    vstd::seq_lib::lemma_concat_associative(l1, s2, t3);
    assert(l2 + t3 == l1 + t2);
    vstd::seq_lib::lemma_concat_associative(l2, s3, t4);
    assert(l3 + t4 == l2 + t3);
    vstd::seq_lib::lemma_concat_associative(l3, s4, t5);
    assert(l4 + t5 == l3 + t4);
    vstd::seq_lib::lemma_concat_associative(l4, s5, t6);
    assert(l5 + t6 == l4 + t5);
    vstd::seq_lib::lemma_concat_associative(l5, s6, t7);
    assert(l6 + t7 == l5 + t6);
    vstd::seq_lib::lemma_concat_associative(l6, s7, t8);
    assert(l7 + t8 == l6 + t7);
    vstd::seq_lib::lemma_concat_associative(l7, s8, t9);
    assert(l8 + t9 == l7 + t8);
    vstd::seq_lib::lemma_concat_associative(l8, s9, t10);
    assert(l9 + t10 == l8 + t9);
    vstd::seq_lib::lemma_concat_associative(l9, s10, t11);
    assert(l10 + t11 == l9 + t10);
    vstd::seq_lib::lemma_concat_associative(l10, s11, t12);
    assert(l11 + t12 == l10 + t11);
    assert(l11 + t12 == t1);
    assert(enc_secret_entries(v) == l12);
    assert(enc_secret_entries(v) == t1);
}

/// Law: a secret survives the wire: decoding its encoding gives back the
/// same value, field for field.
#[verifier::rlimit(100)]
pub proof fn lemma_secret_round_trip(v: crate::model::SecretView)
    requires
        v.wf(),
        secret_text_facts(v),
    ensures
        dec_secret(enc_secret(v)) == Some(v),
{
    let s1 = seq![("name"@, JsonView::Str(v.name))];
    let s2 = (match v.replication { Some(x) => seq![("replication"@, enc_replication(x))], None => Seq::empty() });
    let s3 = (match v.create_time { Some(t) => seq![("createTime"@, JsonView::Str(timestamp_text(t.seconds, t.nanos)))], None => Seq::empty() });
    let s4 = (if v.labels.len() == 0 { Seq::empty() } else { seq![("labels"@, JsonView::Obj(enc_strmap_entries(v.labels)))] });
    let s5 = seq![("topics"@, JsonView::Arr(Seq::new(v.topics.len(), |i: int| enc_topic(v.topics[i]))))];
    let s6 = seq![("etag"@, JsonView::Str(v.etag))];
    let s7 = (match v.rotation { Some(x) => seq![("rotation"@, enc_rotation(x))], None => Seq::empty() });
    let s8 = (if v.version_aliases.len() == 0 { Seq::empty() } else { seq![("versionAliases"@, JsonView::Obj(enc_i64map_entries(v.version_aliases)))] });
    let s9 = (if v.annotations.len() == 0 { Seq::empty() } else { seq![("annotations"@, JsonView::Obj(enc_strmap_entries(v.annotations)))] });
    let s10 = (match v.version_destroy_ttl { Some(d) => seq![("versionDestroyTtl"@, JsonView::Str(duration_text(d.seconds, d.nanos)))], None => Seq::empty() });
    let s11 = (match v.customer_managed_encryption { Some(x) => seq![("customerManagedEncryption"@, enc_customer_managed_encryption(x))], None => Seq::empty() });
    let s12 = (match v.expiration { Some(x) => seq![("expiration"@, enc_expiration(x))], None => Seq::empty() });
    let t12 = s12;
    let t11 = s11 + t12;
    let t10 = s10 + t11;
    let t9 = s9 + t10;
    let t8 = s8 + t9;
    let t7 = s7 + t8;
    let t6 = s6 + t7;
    let t5 = s5 + t6;
    let t4 = s4 + t5;
    let t3 = s3 + t4;
    let t2 = s2 + t3;
    let t1 = s1 + t2;
    let a0 = crate::model::SecretView::default_v();
    let a1 = crate::model::SecretView { name: v.name, ..a0 };
    let a2 = crate::model::SecretView { replication: v.replication, ..a1 };
    let a3 = crate::model::SecretView { create_time: v.create_time, ..a2 };
    let a4 = crate::model::SecretView { labels: v.labels, ..a3 };
    let a5 = crate::model::SecretView { topics: v.topics, ..a4 };
    let a6 = crate::model::SecretView { etag: v.etag, ..a5 };
    let a7 = crate::model::SecretView { rotation: v.rotation, ..a6 };
    let a8 = crate::model::SecretView { version_aliases: v.version_aliases, ..a7 };
    let a9 = crate::model::SecretView { annotations: v.annotations, ..a8 };
    let a10 = crate::model::SecretView { version_destroy_ttl: v.version_destroy_ttl, ..a9 };
    let a11 = crate::model::SecretView { customer_managed_encryption: v.customer_managed_encryption, ..a10 };
    let a12 = crate::model::SecretView { expiration: v.expiration, ..a11 };
    lemma_secret_entries_assoc(v);
    assert(enc_secret_entries(v) == t1);
    lemma_secret_rt_part1(v);
    lemma_secret_rt_part2(v);
    lemma_secret_rt_part3(v);
    assert(a12 == v);
    assert(dec_secret_entries(enc_secret_entries(v), a0) == Some(v));
}

/// The wire entries of a secret version, in schema order.
pub open spec fn enc_secret_version_entries(v: crate::model::SecretVersionView) -> Seq<(Seq<char>, JsonView)> {
    seq![("name"@, JsonView::Str(v.name))]
        + (match v.create_time { Some(t) => seq![("createTime"@, JsonView::Str(timestamp_text(t.seconds, t.nanos)))], None => Seq::empty() })
        + (match v.destroy_time { Some(t) => seq![("destroyTime"@, JsonView::Str(timestamp_text(t.seconds, t.nanos)))], None => Seq::empty() })
        + seq![("state"@, JsonView::Str(v.state))]
        + (match v.replication_status { Some(x) => seq![("replicationStatus"@, enc_replication_status(x))], None => Seq::empty() })
        + seq![("etag"@, JsonView::Str(v.etag))]
        + seq![("clientSpecifiedPayloadChecksum"@, JsonView::Bool(v.client_specified_payload_checksum))]
        + (match v.scheduled_destroy_time { Some(t) => seq![("scheduledDestroyTime"@, JsonView::Str(timestamp_text(t.seconds, t.nanos)))], None => Seq::empty() })
        + (match v.customer_managed_encryption { Some(x) => seq![("customerManagedEncryption"@, enc_customer_managed_encryption_status(x))], None => Seq::empty() })
}

/// The wire form of a secret version.
pub open spec fn enc_secret_version(v: crate::model::SecretVersionView) -> JsonView {
    JsonView::Obj(enc_secret_version_entries(v))
}

/// One decoding step of a secret version: a known key fills its field, null
/// counts as absent, an unknown key is skipped.
pub open spec fn dec_secret_version_field(acc: crate::model::SecretVersionView, key: Seq<char>, val: JsonView) -> Option<crate::model::SecretVersionView> {
    if key == "name"@ {
        if val is Null {
            Some(acc)
        } else {
            match field_str(val) {
                Some(s) => Some(crate::model::SecretVersionView { name: s, ..acc }),
                None => None,
            }
        }
    } else if key == "createTime"@ {
        if val is Null {
            Some(acc)
        } else {
            match field_ts(val) {
                Some(t) => Some(crate::model::SecretVersionView { create_time: Some(t), ..acc }),
                None => None,
            }
        }
    } else if key == "destroyTime"@ {
        if val is Null {
            Some(acc)
        } else {
            match field_ts(val) {
                Some(t) => Some(crate::model::SecretVersionView { destroy_time: Some(t), ..acc }),
                None => None,
            }
        }
    } else if key == "state"@ {
        if val is Null {
            Some(acc)
        } else {
            match field_str(val) {
                Some(s) => Some(crate::model::SecretVersionView { state: s, ..acc }),
                None => None,
            }
        }
    } else if key == "replicationStatus"@ {
        if val is Null {
            Some(acc)
        } else {
            match dec_replication_status(val) {
                Some(x) => Some(crate::model::SecretVersionView { replication_status: Some(x), ..acc }),
                None => None,
            }
        }
    } else if key == "etag"@ {
        if val is Null {
            Some(acc)
        } else {
            match field_str(val) {
                Some(s) => Some(crate::model::SecretVersionView { etag: s, ..acc }),
                None => None,
            }
        }
    } else if key == "clientSpecifiedPayloadChecksum"@ {
        if val is Null {
            Some(acc)
        } else {
            match field_bool(val) {
                Some(b) => Some(crate::model::SecretVersionView { client_specified_payload_checksum: b, ..acc }),
                None => None,
            }
        }
    } else if key == "scheduledDestroyTime"@ {
        if val is Null {
            Some(acc)
        } else {
            match field_ts(val) {
                Some(t) => Some(crate::model::SecretVersionView { scheduled_destroy_time: Some(t), ..acc }),
                None => None,
            }
        }
    } else if key == "customerManagedEncryption"@ {
        if val is Null {
            Some(acc)
        } else {
            match dec_customer_managed_encryption_status(val) {
                Some(x) => Some(crate::model::SecretVersionView { customer_managed_encryption: Some(x), ..acc }),
                None => None,
            }
        }
    } else {
        Some(acc)
    }
}

/// Decoding over the entries of a secret version, entry by entry.
pub open spec fn dec_secret_version_entries(es: Seq<(Seq<char>, JsonView)>, acc: crate::model::SecretVersionView) -> Option<crate::model::SecretVersionView>
    decreases es.len(),
{
    if es.len() == 0 {
        Some(acc)
    } else {
        match dec_secret_version_field(acc, es[0].0, es[0].1) {
            Some(a2) => dec_secret_version_entries(es.skip(1), a2),
            None => None,
        }
    }
}

/// The value of a secret version a wire value denotes, starting from the default.
pub open spec fn dec_secret_version(j: JsonView) -> Option<crate::model::SecretVersionView> {
    match j {
        JsonView::Obj(es) => dec_secret_version_entries(es, crate::model::SecretVersionView::default_v()),
        _ => None,
    }
}

/// The facts about the trusted timestamp text conversion that the
/// round-trip law needs for this record: each contained timestamp's text
/// parses back to the same value. They are the contract of the rendering
/// wrapper, so every encoded record satisfies them.
pub open spec fn secret_version_text_facts(v: crate::model::SecretVersionView) -> bool {
    &&& (match v.create_time { Some(t) => timestamp_text_inverts(t), None => true })
    &&& (match v.destroy_time { Some(t) => timestamp_text_inverts(t), None => true })
    &&& (match v.scheduled_destroy_time { Some(t) => timestamp_text_inverts(t), None => true })
}

/// Decoding distributes over concatenated entry lists.
proof fn lemma_dec_secret_version_entries_concat(
    a: Seq<(Seq<char>, JsonView)>,
    b: Seq<(Seq<char>, JsonView)>,
    acc: crate::model::SecretVersionView,
)
    ensures
        dec_secret_version_entries(a + b, acc) == match dec_secret_version_entries(a, acc) {
            Some(m) => dec_secret_version_entries(b, m),
            None => None::<crate::model::SecretVersionView>,
        },
    decreases a.len(),
{
    if a.len() == 0 {
        assert(a + b =~= b);
    } else {
        assert((a + b)[0] == a[0]);
        match dec_secret_version_field(acc, a[0].0, a[0].1) {
            Some(m) => {
                lemma_dec_secret_version_entries_concat(a.skip(1), b, m);
                assert((a + b).skip(1) =~= a.skip(1) + b);
            },
            None => {},
        }
    }
}

/// Emits the `name` entry of a secret version, when the field is emitted.
fn encode_secret_version_push_name(v: &crate::model::SecretVersion, es: &mut Vec<(String, Json)>)
    requires
        v@.wf(),
    ensures
        entries_view(*final(es)) == entries_view(*old(es)) + seq![("name"@, JsonView::Str(v@.name))],
{
    let ghost vv = v@;
    let ghost es0 = entries_view(*es);
        es.push(("name".to_owned(), Json::Str(v.name.clone())));
        proof {
            assert(entries_view(*es) =~= es0 + seq![("name"@, JsonView::Str(v@.name))]);
        }
}

/// Emits the `createTime` entry of a secret version, when the field is emitted.
fn encode_secret_version_push_create_time(v: &crate::model::SecretVersion, es: &mut Vec<(String, Json)>)
    requires
        v@.wf(),
    ensures
        entries_view(*final(es)) == entries_view(*old(es)) + (match v@.create_time { Some(t) => seq![("createTime"@, JsonView::Str(timestamp_text(t.seconds, t.nanos)))], None => Seq::empty() }),
        (match v@.create_time { Some(t) => timestamp_text_inverts(t), None => true }),
{
    let ghost vv = v@;
    let ghost es0 = entries_view(*es);
        match &v.create_time {
            Some(t) => {
                es.push(("createTime".to_owned(), Json::Str(timestamp_render(t.seconds, t.nanos))));
            },
            None => {},
        }
        proof {
            assert(entries_view(*es) =~= es0 + (match v@.create_time { Some(t) => seq![("createTime"@, JsonView::Str(timestamp_text(t.seconds, t.nanos)))], None => Seq::empty() }));
        }
}

/// Emits the `destroyTime` entry of a secret version, when the field is emitted.
fn encode_secret_version_push_destroy_time(v: &crate::model::SecretVersion, es: &mut Vec<(String, Json)>)
    requires
        v@.wf(),
    ensures
        entries_view(*final(es)) == entries_view(*old(es)) + (match v@.destroy_time { Some(t) => seq![("destroyTime"@, JsonView::Str(timestamp_text(t.seconds, t.nanos)))], None => Seq::empty() }),
        (match v@.destroy_time { Some(t) => timestamp_text_inverts(t), None => true }),
{
    let ghost vv = v@;
    let ghost es0 = entries_view(*es);
        match &v.destroy_time {
            Some(t) => {
                es.push(("destroyTime".to_owned(), Json::Str(timestamp_render(t.seconds, t.nanos))));
            },
            None => {},
        }
        proof {
            assert(entries_view(*es) =~= es0 + (match v@.destroy_time { Some(t) => seq![("destroyTime"@, JsonView::Str(timestamp_text(t.seconds, t.nanos)))], None => Seq::empty() }));
        }
}

/// Emits the `state` entry of a secret version, when the field is emitted.
fn encode_secret_version_push_state(v: &crate::model::SecretVersion, es: &mut Vec<(String, Json)>)
    requires
        v@.wf(),
    ensures
        entries_view(*final(es)) == entries_view(*old(es)) + seq![("state"@, JsonView::Str(v@.state))],
{
    let ghost vv = v@;
    let ghost es0 = entries_view(*es);
        es.push(("state".to_owned(), Json::Str(v.state.0.clone())));
        proof {
            assert(entries_view(*es) =~= es0 + seq![("state"@, JsonView::Str(v@.state))]);
        }
}

/// Emits the `replicationStatus` entry of a secret version, when the field is emitted.
fn encode_secret_version_push_replication_status(v: &crate::model::SecretVersion, es: &mut Vec<(String, Json)>)
    requires
        v@.wf(),
    ensures
        entries_view(*final(es)) == entries_view(*old(es)) + (match v@.replication_status { Some(x) => seq![("replicationStatus"@, enc_replication_status(x))], None => Seq::empty() }),
{
    let ghost vv = v@;
    let ghost es0 = entries_view(*es);
        match &v.replication_status {
            Some(x) => {
                es.push(("replicationStatus".to_owned(), encode_replication_status(x)));
            },
            None => {},
        }
        proof {
            assert(entries_view(*es) =~= es0 + (match v@.replication_status { Some(x) => seq![("replicationStatus"@, enc_replication_status(x))], None => Seq::empty() }));
        }
}

/// Emits the `etag` entry of a secret version, when the field is emitted.
fn encode_secret_version_push_etag(v: &crate::model::SecretVersion, es: &mut Vec<(String, Json)>)
    requires
        v@.wf(),
    ensures
        entries_view(*final(es)) == entries_view(*old(es)) + seq![("etag"@, JsonView::Str(v@.etag))],
{
    let ghost vv = v@;
    let ghost es0 = entries_view(*es);
        es.push(("etag".to_owned(), Json::Str(v.etag.clone())));
        proof {
            assert(entries_view(*es) =~= es0 + seq![("etag"@, JsonView::Str(v@.etag))]);
        }
}

/// Emits the `clientSpecifiedPayloadChecksum` entry of a secret version, when the field is emitted.
fn encode_secret_version_push_client_specified_payload_checksum(v: &crate::model::SecretVersion, es: &mut Vec<(String, Json)>)
    requires
        v@.wf(),
    ensures
        entries_view(*final(es)) == entries_view(*old(es)) + seq![("clientSpecifiedPayloadChecksum"@, JsonView::Bool(v@.client_specified_payload_checksum))],
{
    let ghost vv = v@;
    let ghost es0 = entries_view(*es);
        es.push(("clientSpecifiedPayloadChecksum".to_owned(), Json::Bool(v.client_specified_payload_checksum)));
        proof {
            assert(entries_view(*es) =~= es0 + seq![("clientSpecifiedPayloadChecksum"@, JsonView::Bool(v@.client_specified_payload_checksum))]);
        }
}

/// Emits the `scheduledDestroyTime` entry of a secret version, when the field is emitted.
fn encode_secret_version_push_scheduled_destroy_time(v: &crate::model::SecretVersion, es: &mut Vec<(String, Json)>)
    requires
        v@.wf(),
    ensures
        entries_view(*final(es)) == entries_view(*old(es)) + (match v@.scheduled_destroy_time { Some(t) => seq![("scheduledDestroyTime"@, JsonView::Str(timestamp_text(t.seconds, t.nanos)))], None => Seq::empty() }),
        (match v@.scheduled_destroy_time { Some(t) => timestamp_text_inverts(t), None => true }),
{
    let ghost vv = v@;
    let ghost es0 = entries_view(*es);
        match &v.scheduled_destroy_time {
            Some(t) => {
                es.push(("scheduledDestroyTime".to_owned(), Json::Str(timestamp_render(t.seconds, t.nanos))));
            },
            None => {},
        }
        proof {
            assert(entries_view(*es) =~= es0 + (match v@.scheduled_destroy_time { Some(t) => seq![("scheduledDestroyTime"@, JsonView::Str(timestamp_text(t.seconds, t.nanos)))], None => Seq::empty() }));
        }
}

/// Emits the `customerManagedEncryption` entry of a secret version, when the field is emitted.
fn encode_secret_version_push_customer_managed_encryption(v: &crate::model::SecretVersion, es: &mut Vec<(String, Json)>)
    requires
        v@.wf(),
    ensures
        entries_view(*final(es)) == entries_view(*old(es)) + (match v@.customer_managed_encryption { Some(x) => seq![("customerManagedEncryption"@, enc_customer_managed_encryption_status(x))], None => Seq::empty() }),
{
    let ghost vv = v@;
    let ghost es0 = entries_view(*es);
        match &v.customer_managed_encryption {
            Some(x) => {
                es.push(("customerManagedEncryption".to_owned(), encode_customer_managed_encryption_status(x)));
            },
            None => {},
        }
        proof {
            assert(entries_view(*es) =~= es0 + (match v@.customer_managed_encryption { Some(x) => seq![("customerManagedEncryption"@, enc_customer_managed_encryption_status(x))], None => Seq::empty() }));
        }
}

/// Encodes a secret version in its wire form.
pub fn encode_secret_version(v: &crate::model::SecretVersion) -> (r: Json)
    requires
        v@.wf(),
    ensures
        r@ == enc_secret_version(v@),
        secret_version_text_facts(v@),
{
    let mut es: Vec<(String, Json)> = Vec::new();
    proof {
        assert(entries_view(es) =~= Seq::<(Seq<char>, JsonView)>::empty());
    }
    encode_secret_version_push_name(v, &mut es);
    encode_secret_version_push_create_time(v, &mut es);
    encode_secret_version_push_destroy_time(v, &mut es);
    encode_secret_version_push_state(v, &mut es);
    encode_secret_version_push_replication_status(v, &mut es);
    encode_secret_version_push_etag(v, &mut es);
    encode_secret_version_push_client_specified_payload_checksum(v, &mut es);
    encode_secret_version_push_scheduled_destroy_time(v, &mut es);
    encode_secret_version_push_customer_managed_encryption(v, &mut es);
    let r = Json::Obj(es);
    proof {
        lemma_obj_view(r->Obj_0);
        assert(entries_view(es) =~= enc_secret_version_entries(v@));
    }
    r
}

/// Decodes a secret version from its wire form: unknown keys are skipped, null
/// values and missing fields leave the default, and a value of the wrong
/// shape for its key is a serialization error naming the field.
#[verifier::rlimit(100)]
pub fn decode_secret_version(v: &Json) -> (r: Result<crate::model::SecretVersion, Error>)
    ensures
        match r {
            Ok(out) => dec_secret_version(v@) == Some(out@),
            Err(e) => dec_secret_version(v@) is None && e.kind == ErrorKind::Serde,
        },
{
    let es = match v {
        Json::Obj(es) => es,
        _ => {
            return Err(shape_error("SecretVersion"));
        },
    };
    let ghost es0 = entries_view(*es);
    proof {
        lemma_obj_view(*es);
    }
    let mut out = crate::model::SecretVersion::default();
    let mut i: usize = 0;
    proof {
        assert(es0.skip(0) =~= es0);
    }
    while i < es.len()
        invariant
            i <= es@.len(),
            es0 == entries_view(*es),
            es0.len() == es@.len(),
            v@ == JsonView::Obj(es0),
            dec_secret_version_entries(es0, crate::model::SecretVersionView::default_v()) == dec_secret_version_entries(
                es0.skip(i as int),
                out@,
            ),
        decreases es@.len() - i,
    {
        let ghost pre = es0.skip(i as int);
        proof {
            assert(pre[0] == es0[i as int]);
            assert(es0[i as int] == (es@[i as int].0@, es@[i as int].1@));
            assert(pre.skip(1) =~= es0.skip(i as int + 1));
        }
        let key = &es[i].0;
        let val = &es[i].1;
        if str_eq(key.as_str(), "name") {
                if let Json::Null = val {
                } else {
                    match jv_str(val) {
                    Ok(x) => {
                        out = crate::model::SecretVersion { name: x, ..out };
                    },
                    Err(_) => {
                        return Err(field_error("SecretVersion", "name"));
                    },
                }
                }
            } else if str_eq(key.as_str(), "createTime") {
                if let Json::Null = val {
                } else {
                    match jv_ts(val) {
                    Ok(x) => {
                        out = crate::model::SecretVersion { create_time: Some(x), ..out };
                    },
                    Err(_) => {
                        return Err(field_error("SecretVersion", "createTime"));
                    },
                }
                }
            } else if str_eq(key.as_str(), "destroyTime") {
                if let Json::Null = val {
                } else {
                    match jv_ts(val) {
                    Ok(x) => {
                        out = crate::model::SecretVersion { destroy_time: Some(x), ..out };
                    },
                    Err(_) => {
                        return Err(field_error("SecretVersion", "destroyTime"));
                    },
                }
                }
            } else if str_eq(key.as_str(), "state") {
                if let Json::Null = val {
                } else {
                    match jv_str(val) {
                    Ok(x) => {
                        out = crate::model::SecretVersion { state: crate::model::secret_version::State(x), ..out };
                    },
                    Err(_) => {
                        return Err(field_error("SecretVersion", "state"));
                    },
                }
                }
            } else if str_eq(key.as_str(), "replicationStatus") {
                if let Json::Null = val {
                } else {
                    match decode_replication_status(val) {
                    Ok(x) => {
                        out = crate::model::SecretVersion { replication_status: Some(x), ..out };
                    },
                    Err(e) => {
                        return Err(e);
                    },
                }
                }
            } else if str_eq(key.as_str(), "etag") {
                if let Json::Null = val {
                } else {
                    match jv_str(val) {
                    Ok(x) => {
                        out = crate::model::SecretVersion { etag: x, ..out };
                    },
                    Err(_) => {
                        return Err(field_error("SecretVersion", "etag"));
                    },
                }
                }
            } else if str_eq(key.as_str(), "clientSpecifiedPayloadChecksum") {
                if let Json::Null = val {
                } else {
                    match jv_bool(val) {
                    Ok(x) => {
                        out = crate::model::SecretVersion { client_specified_payload_checksum: x, ..out };
                    },
                    Err(_) => {
                        return Err(field_error("SecretVersion", "clientSpecifiedPayloadChecksum"));
                    },
                }
                }
            } else if str_eq(key.as_str(), "scheduledDestroyTime") {
                if let Json::Null = val {
                } else {
                    match jv_ts(val) {
                    Ok(x) => {
                        out = crate::model::SecretVersion { scheduled_destroy_time: Some(x), ..out };
                    },
                    Err(_) => {
                        return Err(field_error("SecretVersion", "scheduledDestroyTime"));
                    },
                }
                }
            } else if str_eq(key.as_str(), "customerManagedEncryption") {
                if let Json::Null = val {
                } else {
                    match decode_customer_managed_encryption_status(val) {
                    Ok(x) => {
                        out = crate::model::SecretVersion { customer_managed_encryption: Some(x), ..out };
                    },
                    Err(e) => {
                        return Err(e);
                    },
                }
                }
            }
        i += 1;
    }
    proof {
        assert(es0.skip(i as int).len() == 0);
    }
    Ok(out)
}

/// The `name` entries of a secret version decode onto a state whose own field
/// still has its default value by filling in exactly that field.
proof fn lemma_secret_version_rt_name(v: crate::model::SecretVersionView, prev: crate::model::SecretVersionView)
    requires
        v.wf(),
        secret_version_text_facts(v),
    ensures
        dec_secret_version_entries(seq![("name"@, JsonView::Str(v.name))], prev) == Some(crate::model::SecretVersionView { name: v.name, ..prev }),
{
    reveal_strlit("name");
    let sg = seq![("name"@, JsonView::Str(v.name))];
    let cur = crate::model::SecretVersionView { name: v.name, ..prev };
    {
        assert(dec_secret_version_field(prev, "name"@, JsonView::Str(v.name)) == Some(cur));
        assert(sg.len() == 1);
        assert(sg.skip(1).len() == 0);
        assert(dec_secret_version_entries(sg.skip(1), cur) == Some(cur));
        assert(dec_secret_version_entries(sg, prev) == Some(cur));
    }
}

/// The `createTime` entries of a secret version decode onto a state whose own field
/// still has its default value by filling in exactly that field.
proof fn lemma_secret_version_rt_create_time(v: crate::model::SecretVersionView, prev: crate::model::SecretVersionView)
    requires
        v.wf(),
        secret_version_text_facts(v),
        prev.create_time == crate::model::SecretVersionView::default_v().create_time,
    ensures
        dec_secret_version_entries((match v.create_time { Some(t) => seq![("createTime"@, JsonView::Str(timestamp_text(t.seconds, t.nanos)))], None => Seq::empty() }), prev) == Some(crate::model::SecretVersionView { create_time: v.create_time, ..prev }),
{
    reveal_strlit("name");
    reveal_strlit("createTime");
    assert(("name"@).len() == 4);
    assert(("createTime"@).len() == 10);
    assert("name"@ != "createTime"@);
    let sg = (match v.create_time { Some(t) => seq![("createTime"@, JsonView::Str(timestamp_text(t.seconds, t.nanos)))], None => Seq::empty() });
    let cur = crate::model::SecretVersionView { create_time: v.create_time, ..prev };
    match v.create_time {
        Some(t) => {
            assert(timestamp_text_inverts(t));
            assert(field_ts(JsonView::Str(timestamp_text(t.seconds, t.nanos))) == Some(t));
            assert(dec_secret_version_field(prev, "createTime"@, JsonView::Str(timestamp_text(t.seconds, t.nanos))) == Some(cur));
        assert(sg.len() == 1);
        assert(sg.skip(1).len() == 0);
        assert(dec_secret_version_entries(sg.skip(1), cur) == Some(cur));
        assert(dec_secret_version_entries(sg, prev) == Some(cur));
        },
        None => {
            assert(sg.len() == 0);
            assert(cur == prev);
            assert(dec_secret_version_entries(sg, prev) == Some(cur));
        },
    }
}

/// The `destroyTime` entries of a secret version decode onto a state whose own field
/// still has its default value by filling in exactly that field.
proof fn lemma_secret_version_rt_destroy_time(v: crate::model::SecretVersionView, prev: crate::model::SecretVersionView)
    requires
        v.wf(),
        secret_version_text_facts(v),
        prev.destroy_time == crate::model::SecretVersionView::default_v().destroy_time,
    ensures
        dec_secret_version_entries((match v.destroy_time { Some(t) => seq![("destroyTime"@, JsonView::Str(timestamp_text(t.seconds, t.nanos)))], None => Seq::empty() }), prev) == Some(crate::model::SecretVersionView { destroy_time: v.destroy_time, ..prev }),
{
    reveal_strlit("name");
    reveal_strlit("createTime");
    reveal_strlit("destroyTime");
    assert(("name"@).len() == 4);
    assert(("destroyTime"@).len() == 11);
    assert("name"@ != "destroyTime"@);
    assert(("createTime"@).len() == 10);
    assert(("destroyTime"@).len() == 11);
    assert("createTime"@ != "destroyTime"@);
    let sg = (match v.destroy_time { Some(t) => seq![("destroyTime"@, JsonView::Str(timestamp_text(t.seconds, t.nanos)))], None => Seq::empty() });
    let cur = crate::model::SecretVersionView { destroy_time: v.destroy_time, ..prev };
    match v.destroy_time {
        Some(t) => {
            assert(timestamp_text_inverts(t));
            assert(field_ts(JsonView::Str(timestamp_text(t.seconds, t.nanos))) == Some(t));
            assert(dec_secret_version_field(prev, "destroyTime"@, JsonView::Str(timestamp_text(t.seconds, t.nanos))) == Some(cur));
        assert(sg.len() == 1);
        assert(sg.skip(1).len() == 0);
        assert(dec_secret_version_entries(sg.skip(1), cur) == Some(cur));
        assert(dec_secret_version_entries(sg, prev) == Some(cur));
        },
        None => {
            assert(sg.len() == 0);
            assert(cur == prev);
            assert(dec_secret_version_entries(sg, prev) == Some(cur));
        },
    }
}

/// The `state` entries of a secret version decode onto a state whose own field
/// still has its default value by filling in exactly that field.
proof fn lemma_secret_version_rt_state(v: crate::model::SecretVersionView, prev: crate::model::SecretVersionView)
    requires
        v.wf(),
        secret_version_text_facts(v),
    ensures
        dec_secret_version_entries(seq![("state"@, JsonView::Str(v.state))], prev) == Some(crate::model::SecretVersionView { state: v.state, ..prev }),
{
    reveal_strlit("name");
    reveal_strlit("createTime");
    reveal_strlit("destroyTime");
    reveal_strlit("state");
    assert(("name"@).len() == 4);
    assert(("state"@).len() == 5);
    assert("name"@ != "state"@);
    assert(("createTime"@).len() == 10);
    assert(("state"@).len() == 5);
    assert("createTime"@ != "state"@);
    assert(("destroyTime"@).len() == 11);
    assert(("state"@).len() == 5);
    assert("destroyTime"@ != "state"@);
    let sg = seq![("state"@, JsonView::Str(v.state))];
    let cur = crate::model::SecretVersionView { state: v.state, ..prev };
    {
        assert(dec_secret_version_field(prev, "state"@, JsonView::Str(v.state)) == Some(cur));
        assert(sg.len() == 1);
        assert(sg.skip(1).len() == 0);
        assert(dec_secret_version_entries(sg.skip(1), cur) == Some(cur));
        assert(dec_secret_version_entries(sg, prev) == Some(cur));
    }
}

/// The `replicationStatus` entries of a secret version decode onto a state whose own field
/// still has its default value by filling in exactly that field.
proof fn lemma_secret_version_rt_replication_status(v: crate::model::SecretVersionView, prev: crate::model::SecretVersionView)
    requires
        v.wf(),
        secret_version_text_facts(v),
        prev.replication_status == crate::model::SecretVersionView::default_v().replication_status,
    ensures
        dec_secret_version_entries((match v.replication_status { Some(x) => seq![("replicationStatus"@, enc_replication_status(x))], None => Seq::empty() }), prev) == Some(crate::model::SecretVersionView { replication_status: v.replication_status, ..prev }),
{
    reveal_strlit("name");
    reveal_strlit("createTime");
    reveal_strlit("destroyTime");
    reveal_strlit("state");
    reveal_strlit("replicationStatus");
    assert(("name"@).len() == 4);
    assert(("replicationStatus"@).len() == 17);
    assert("name"@ != "replicationStatus"@);
    assert(("createTime"@).len() == 10);
    assert(("replicationStatus"@).len() == 17);
    assert("createTime"@ != "replicationStatus"@);
    assert(("destroyTime"@).len() == 11);
    assert(("replicationStatus"@).len() == 17);
    assert("destroyTime"@ != "replicationStatus"@);
    assert(("state"@).len() == 5);
    assert(("replicationStatus"@).len() == 17);
    assert("state"@ != "replicationStatus"@);
    let sg = (match v.replication_status { Some(x) => seq![("replicationStatus"@, enc_replication_status(x))], None => Seq::empty() });
    let cur = crate::model::SecretVersionView { replication_status: v.replication_status, ..prev };
    match v.replication_status {
        Some(x) => {
            lemma_replication_status_round_trip(x);
            assert(dec_secret_version_field(prev, "replicationStatus"@, enc_replication_status(x)) == Some(cur));
        assert(sg.len() == 1);
        assert(sg.skip(1).len() == 0);
        assert(dec_secret_version_entries(sg.skip(1), cur) == Some(cur));
        assert(dec_secret_version_entries(sg, prev) == Some(cur));
        },
        None => {
            assert(sg.len() == 0);
            assert(cur == prev);
            assert(dec_secret_version_entries(sg, prev) == Some(cur));
        },
    }
}

/// The `etag` entries of a secret version decode onto a state whose own field
/// still has its default value by filling in exactly that field.
proof fn lemma_secret_version_rt_etag(v: crate::model::SecretVersionView, prev: crate::model::SecretVersionView)
    requires
        v.wf(),
        secret_version_text_facts(v),
    ensures
        dec_secret_version_entries(seq![("etag"@, JsonView::Str(v.etag))], prev) == Some(crate::model::SecretVersionView { etag: v.etag, ..prev }),
{
    reveal_strlit("name");
    reveal_strlit("createTime");
    reveal_strlit("destroyTime");
    reveal_strlit("state");
    reveal_strlit("replicationStatus");
    reveal_strlit("etag");
    assert(("name"@).len() == 4);
    assert(("etag"@).len() == 4);
    assert(("name"@)[0] == 'n' && ("etag"@)[0] == 'e');
    assert("name"@ != "etag"@);
    assert(("createTime"@).len() == 10);
    assert(("etag"@).len() == 4);
    assert("createTime"@ != "etag"@);
    assert(("destroyTime"@).len() == 11);
    assert(("etag"@).len() == 4);
    assert("destroyTime"@ != "etag"@);
    assert(("state"@).len() == 5);
    assert(("etag"@).len() == 4);
    assert("state"@ != "etag"@);
    assert(("replicationStatus"@).len() == 17);
    assert(("etag"@).len() == 4);
    assert("replicationStatus"@ != "etag"@);
    let sg = seq![("etag"@, JsonView::Str(v.etag))];
    let cur = crate::model::SecretVersionView { etag: v.etag, ..prev };
    {
        assert(dec_secret_version_field(prev, "etag"@, JsonView::Str(v.etag)) == Some(cur));
        assert(sg.len() == 1);
        assert(sg.skip(1).len() == 0);
        assert(dec_secret_version_entries(sg.skip(1), cur) == Some(cur));
        assert(dec_secret_version_entries(sg, prev) == Some(cur));
    }
}

/// The `clientSpecifiedPayloadChecksum` entries of a secret version decode onto a state whose own field
/// still has its default value by filling in exactly that field.
proof fn lemma_secret_version_rt_client_specified_payload_checksum(v: crate::model::SecretVersionView, prev: crate::model::SecretVersionView)
    requires
        v.wf(),
        secret_version_text_facts(v),
    ensures
        dec_secret_version_entries(seq![("clientSpecifiedPayloadChecksum"@, JsonView::Bool(v.client_specified_payload_checksum))], prev) == Some(crate::model::SecretVersionView { client_specified_payload_checksum: v.client_specified_payload_checksum, ..prev }),
{
    reveal_strlit("name");
    reveal_strlit("createTime");
    reveal_strlit("destroyTime");
    reveal_strlit("state");
    reveal_strlit("replicationStatus");
    reveal_strlit("etag");
    reveal_strlit("clientSpecifiedPayloadChecksum");
    assert(("name"@).len() == 4);
    assert(("clientSpecifiedPayloadChecksum"@).len() == 30);
    assert("name"@ != "clientSpecifiedPayloadChecksum"@);
    assert(("createTime"@).len() == 10);
    assert(("clientSpecifiedPayloadChecksum"@).len() == 30);
    assert("createTime"@ != "clientSpecifiedPayloadChecksum"@);
    assert(("destroyTime"@).len() == 11);
    assert(("clientSpecifiedPayloadChecksum"@).len() == 30);
    assert("destroyTime"@ != "clientSpecifiedPayloadChecksum"@);
    assert(("state"@).len() == 5);
    assert(("clientSpecifiedPayloadChecksum"@).len() == 30);
    assert("state"@ != "clientSpecifiedPayloadChecksum"@);
    assert(("replicationStatus"@).len() == 17);
    assert(("clientSpecifiedPayloadChecksum"@).len() == 30);
    assert("replicationStatus"@ != "clientSpecifiedPayloadChecksum"@);
    assert(("etag"@).len() == 4);
    assert(("clientSpecifiedPayloadChecksum"@).len() == 30);
    assert("etag"@ != "clientSpecifiedPayloadChecksum"@);
    let sg = seq![("clientSpecifiedPayloadChecksum"@, JsonView::Bool(v.client_specified_payload_checksum))];
    let cur = crate::model::SecretVersionView { client_specified_payload_checksum: v.client_specified_payload_checksum, ..prev };
    {
        assert(dec_secret_version_field(prev, "clientSpecifiedPayloadChecksum"@, JsonView::Bool(v.client_specified_payload_checksum)) == Some(cur));
        assert(sg.len() == 1);
        assert(sg.skip(1).len() == 0);
        assert(dec_secret_version_entries(sg.skip(1), cur) == Some(cur));
        assert(dec_secret_version_entries(sg, prev) == Some(cur));
    }
}

/// The `scheduledDestroyTime` entries of a secret version decode onto a state whose own field
/// still has its default value by filling in exactly that field.
proof fn lemma_secret_version_rt_scheduled_destroy_time(v: crate::model::SecretVersionView, prev: crate::model::SecretVersionView)
    requires
        v.wf(),
        secret_version_text_facts(v),
        prev.scheduled_destroy_time == crate::model::SecretVersionView::default_v().scheduled_destroy_time,
    ensures
        dec_secret_version_entries((match v.scheduled_destroy_time { Some(t) => seq![("scheduledDestroyTime"@, JsonView::Str(timestamp_text(t.seconds, t.nanos)))], None => Seq::empty() }), prev) == Some(crate::model::SecretVersionView { scheduled_destroy_time: v.scheduled_destroy_time, ..prev }),
{
    reveal_strlit("name");
    reveal_strlit("createTime");
    reveal_strlit("destroyTime");
    reveal_strlit("state");
    reveal_strlit("replicationStatus");
    reveal_strlit("etag");
    reveal_strlit("clientSpecifiedPayloadChecksum");
    reveal_strlit("scheduledDestroyTime");
    assert(("name"@).len() == 4);
    assert(("scheduledDestroyTime"@).len() == 20);
    assert("name"@ != "scheduledDestroyTime"@);
    assert(("createTime"@).len() == 10);
    assert(("scheduledDestroyTime"@).len() == 20);
    assert("createTime"@ != "scheduledDestroyTime"@);
    assert(("destroyTime"@).len() == 11);
    assert(("scheduledDestroyTime"@).len() == 20);
    assert("destroyTime"@ != "scheduledDestroyTime"@);
    assert(("state"@).len() == 5);
    assert(("scheduledDestroyTime"@).len() == 20);
    assert("state"@ != "scheduledDestroyTime"@);
    assert(("replicationStatus"@).len() == 17);
    assert(("scheduledDestroyTime"@).len() == 20);
    assert("replicationStatus"@ != "scheduledDestroyTime"@);
    assert(("etag"@).len() == 4);
    assert(("scheduledDestroyTime"@).len() == 20);
    assert("etag"@ != "scheduledDestroyTime"@);
    assert(("clientSpecifiedPayloadChecksum"@).len() == 30);
    assert(("scheduledDestroyTime"@).len() == 20);
    assert("clientSpecifiedPayloadChecksum"@ != "scheduledDestroyTime"@);
    let sg = (match v.scheduled_destroy_time { Some(t) => seq![("scheduledDestroyTime"@, JsonView::Str(timestamp_text(t.seconds, t.nanos)))], None => Seq::empty() });
    let cur = crate::model::SecretVersionView { scheduled_destroy_time: v.scheduled_destroy_time, ..prev };
    match v.scheduled_destroy_time {
        Some(t) => {
            assert(timestamp_text_inverts(t));
            assert(field_ts(JsonView::Str(timestamp_text(t.seconds, t.nanos))) == Some(t));
            assert(dec_secret_version_field(prev, "scheduledDestroyTime"@, JsonView::Str(timestamp_text(t.seconds, t.nanos))) == Some(cur));
        assert(sg.len() == 1);
        assert(sg.skip(1).len() == 0);
        assert(dec_secret_version_entries(sg.skip(1), cur) == Some(cur));
        assert(dec_secret_version_entries(sg, prev) == Some(cur));
        },
        None => {
            assert(sg.len() == 0);
            assert(cur == prev);
            assert(dec_secret_version_entries(sg, prev) == Some(cur));
        },
    }
}

/// The `customerManagedEncryption` entries of a secret version decode onto a state whose own field
/// still has its default value by filling in exactly that field.
proof fn lemma_secret_version_rt_customer_managed_encryption(v: crate::model::SecretVersionView, prev: crate::model::SecretVersionView)
    requires
        v.wf(),
        secret_version_text_facts(v),
        prev.customer_managed_encryption == crate::model::SecretVersionView::default_v().customer_managed_encryption,
    ensures
        dec_secret_version_entries((match v.customer_managed_encryption { Some(x) => seq![("customerManagedEncryption"@, enc_customer_managed_encryption_status(x))], None => Seq::empty() }), prev) == Some(crate::model::SecretVersionView { customer_managed_encryption: v.customer_managed_encryption, ..prev }),
{
    reveal_strlit("name");
    reveal_strlit("createTime");
    reveal_strlit("destroyTime");
    reveal_strlit("state");
    reveal_strlit("replicationStatus");
    reveal_strlit("etag");
    reveal_strlit("clientSpecifiedPayloadChecksum");
    reveal_strlit("scheduledDestroyTime");
    reveal_strlit("customerManagedEncryption");
    assert(("name"@).len() == 4);
    assert(("customerManagedEncryption"@).len() == 25);
    assert("name"@ != "customerManagedEncryption"@);
    assert(("createTime"@).len() == 10);
    assert(("customerManagedEncryption"@).len() == 25);
    assert("createTime"@ != "customerManagedEncryption"@);
    assert(("destroyTime"@).len() == 11);
    assert(("customerManagedEncryption"@).len() == 25);
    assert("destroyTime"@ != "customerManagedEncryption"@);
    assert(("state"@).len() == 5);
    assert(("customerManagedEncryption"@).len() == 25);
    assert("state"@ != "customerManagedEncryption"@);
    assert(("replicationStatus"@).len() == 17);
    assert(("customerManagedEncryption"@).len() == 25);
    assert("replicationStatus"@ != "customerManagedEncryption"@);
    assert(("etag"@).len() == 4);
    assert(("customerManagedEncryption"@).len() == 25);
    assert("etag"@ != "customerManagedEncryption"@);
    assert(("clientSpecifiedPayloadChecksum"@).len() == 30);
    assert(("customerManagedEncryption"@).len() == 25);
    assert("clientSpecifiedPayloadChecksum"@ != "customerManagedEncryption"@);
    assert(("scheduledDestroyTime"@).len() == 20);
    assert(("customerManagedEncryption"@).len() == 25);
    assert("scheduledDestroyTime"@ != "customerManagedEncryption"@);
    let sg = (match v.customer_managed_encryption { Some(x) => seq![("customerManagedEncryption"@, enc_customer_managed_encryption_status(x))], None => Seq::empty() });
    let cur = crate::model::SecretVersionView { customer_managed_encryption: v.customer_managed_encryption, ..prev };
    match v.customer_managed_encryption {
        Some(x) => {
            lemma_customer_managed_encryption_status_round_trip(x);
            assert(dec_secret_version_field(prev, "customerManagedEncryption"@, enc_customer_managed_encryption_status(x)) == Some(cur));
        assert(sg.len() == 1);
        assert(sg.skip(1).len() == 0);
        assert(dec_secret_version_entries(sg.skip(1), cur) == Some(cur));
        assert(dec_secret_version_entries(sg, prev) == Some(cur));
        },
        None => {
            assert(sg.len() == 0);
            assert(cur == prev);
            assert(dec_secret_version_entries(sg, prev) == Some(cur));
        },
    }
}


/// One stretch of the fields of a secret version, decoded in order.
#[verifier::rlimit(100)]
proof fn lemma_secret_version_rt_part1(v: crate::model::SecretVersionView)
    requires
        v.wf(),
        secret_version_text_facts(v),
    ensures
        dec_secret_version_entries(seq![("name"@, JsonView::Str(v.name))] + ((match v.create_time { Some(t) => seq![("createTime"@, JsonView::Str(timestamp_text(t.seconds, t.nanos)))], None => Seq::empty() }) + ((match v.destroy_time { Some(t) => seq![("destroyTime"@, JsonView::Str(timestamp_text(t.seconds, t.nanos)))], None => Seq::empty() }) + (seq![("state"@, JsonView::Str(v.state))] + ((match v.replication_status { Some(x) => seq![("replicationStatus"@, enc_replication_status(x))], None => Seq::empty() }) + (seq![("etag"@, JsonView::Str(v.etag))] + (seq![("clientSpecifiedPayloadChecksum"@, JsonView::Bool(v.client_specified_payload_checksum))] + ((match v.scheduled_destroy_time { Some(t) => seq![("scheduledDestroyTime"@, JsonView::Str(timestamp_text(t.seconds, t.nanos)))], None => Seq::empty() }) + ((match v.customer_managed_encryption { Some(x) => seq![("customerManagedEncryption"@, enc_customer_managed_encryption_status(x))], None => Seq::empty() }))))))))), crate::model::SecretVersionView::default_v()) == dec_secret_version_entries((match v.replication_status { Some(x) => seq![("replicationStatus"@, enc_replication_status(x))], None => Seq::empty() }) + (seq![("etag"@, JsonView::Str(v.etag))] + (seq![("clientSpecifiedPayloadChecksum"@, JsonView::Bool(v.client_specified_payload_checksum))] + ((match v.scheduled_destroy_time { Some(t) => seq![("scheduledDestroyTime"@, JsonView::Str(timestamp_text(t.seconds, t.nanos)))], None => Seq::empty() }) + ((match v.customer_managed_encryption { Some(x) => seq![("customerManagedEncryption"@, enc_customer_managed_encryption_status(x))], None => Seq::empty() }))))), crate::model::SecretVersionView { state: v.state, ..crate::model::SecretVersionView { destroy_time: v.destroy_time, ..crate::model::SecretVersionView { create_time: v.create_time, ..crate::model::SecretVersionView { name: v.name, ..crate::model::SecretVersionView::default_v() } } } }),
{
    let s1 = seq![("name"@, JsonView::Str(v.name))];
    let s2 = (match v.create_time { Some(t) => seq![("createTime"@, JsonView::Str(timestamp_text(t.seconds, t.nanos)))], None => Seq::empty() });
    let s3 = (match v.destroy_time { Some(t) => seq![("destroyTime"@, JsonView::Str(timestamp_text(t.seconds, t.nanos)))], None => Seq::empty() });
    let s4 = seq![("state"@, JsonView::Str(v.state))];
    let s5 = (match v.replication_status { Some(x) => seq![("replicationStatus"@, enc_replication_status(x))], None => Seq::empty() });
    let s6 = seq![("etag"@, JsonView::Str(v.etag))];
    let s7 = seq![("clientSpecifiedPayloadChecksum"@, JsonView::Bool(v.client_specified_payload_checksum))];
    let s8 = (match v.scheduled_destroy_time { Some(t) => seq![("scheduledDestroyTime"@, JsonView::Str(timestamp_text(t.seconds, t.nanos)))], None => Seq::empty() });
    let s9 = (match v.customer_managed_encryption { Some(x) => seq![("customerManagedEncryption"@, enc_customer_managed_encryption_status(x))], None => Seq::empty() });
    let t9 = s9;
    let t8 = s8 + t9;
    let t7 = s7 + t8;
    let t6 = s6 + t7;
    let t5 = s5 + t6;
    let t4 = s4 + t5;
    let t3 = s3 + t4;
    let t2 = s2 + t3;
    let t1 = s1 + t2;
    let a0 = crate::model::SecretVersionView::default_v();
    let a1 = crate::model::SecretVersionView { name: v.name, ..a0 };
    let a2 = crate::model::SecretVersionView { create_time: v.create_time, ..a1 };
    let a3 = crate::model::SecretVersionView { destroy_time: v.destroy_time, ..a2 };
    let a4 = crate::model::SecretVersionView { state: v.state, ..a3 };
    lemma_secret_version_rt_name(v, a0);
    lemma_dec_secret_version_entries_concat(s1, t2, a0);
    assert(dec_secret_version_entries(t1, a0) == dec_secret_version_entries(t2, a1));
    lemma_secret_version_rt_create_time(v, a1);
    lemma_dec_secret_version_entries_concat(s2, t3, a1);
    assert(dec_secret_version_entries(t2, a1) == dec_secret_version_entries(t3, a2));
    lemma_secret_version_rt_destroy_time(v, a2);
    lemma_dec_secret_version_entries_concat(s3, t4, a2);
    assert(dec_secret_version_entries(t3, a2) == dec_secret_version_entries(t4, a3));
    lemma_secret_version_rt_state(v, a3);
    lemma_dec_secret_version_entries_concat(s4, t5, a3);
    assert(dec_secret_version_entries(t4, a3) == dec_secret_version_entries(t5, a4));
}

/// One stretch of the fields of a secret version, decoded in order.
#[verifier::rlimit(100)]
proof fn lemma_secret_version_rt_part2(v: crate::model::SecretVersionView)
    requires
        v.wf(),
        secret_version_text_facts(v),
    ensures
        dec_secret_version_entries((match v.replication_status { Some(x) => seq![("replicationStatus"@, enc_replication_status(x))], None => Seq::empty() }) + (seq![("etag"@, JsonView::Str(v.etag))] + (seq![("clientSpecifiedPayloadChecksum"@, JsonView::Bool(v.client_specified_payload_checksum))] + ((match v.scheduled_destroy_time { Some(t) => seq![("scheduledDestroyTime"@, JsonView::Str(timestamp_text(t.seconds, t.nanos)))], None => Seq::empty() }) + ((match v.customer_managed_encryption { Some(x) => seq![("customerManagedEncryption"@, enc_customer_managed_encryption_status(x))], None => Seq::empty() }))))), crate::model::SecretVersionView { state: v.state, ..crate::model::SecretVersionView { destroy_time: v.destroy_time, ..crate::model::SecretVersionView { create_time: v.create_time, ..crate::model::SecretVersionView { name: v.name, ..crate::model::SecretVersionView::default_v() } } } }) == dec_secret_version_entries((match v.customer_managed_encryption { Some(x) => seq![("customerManagedEncryption"@, enc_customer_managed_encryption_status(x))], None => Seq::empty() }), crate::model::SecretVersionView { scheduled_destroy_time: v.scheduled_destroy_time, ..crate::model::SecretVersionView { client_specified_payload_checksum: v.client_specified_payload_checksum, ..crate::model::SecretVersionView { etag: v.etag, ..crate::model::SecretVersionView { replication_status: v.replication_status, ..crate::model::SecretVersionView { state: v.state, ..crate::model::SecretVersionView { destroy_time: v.destroy_time, ..crate::model::SecretVersionView { create_time: v.create_time, ..crate::model::SecretVersionView { name: v.name, ..crate::model::SecretVersionView::default_v() } } } } } } } }),
{
    let s5 = (match v.replication_status { Some(x) => seq![("replicationStatus"@, enc_replication_status(x))], None => Seq::empty() });
    let s6 = seq![("etag"@, JsonView::Str(v.etag))];
    let s7 = seq![("clientSpecifiedPayloadChecksum"@, JsonView::Bool(v.client_specified_payload_checksum))];
    let s8 = (match v.scheduled_destroy_time { Some(t) => seq![("scheduledDestroyTime"@, JsonView::Str(timestamp_text(t.seconds, t.nanos)))], None => Seq::empty() });
    let s9 = (match v.customer_managed_encryption { Some(x) => seq![("customerManagedEncryption"@, enc_customer_managed_encryption_status(x))], None => Seq::empty() });
    let t9 = s9;
    let t8 = s8 + t9;
    let t7 = s7 + t8;
    let t6 = s6 + t7;
    let t5 = s5 + t6;
    let a0 = crate::model::SecretVersionView::default_v();
    let a1 = crate::model::SecretVersionView { name: v.name, ..a0 };
    let a2 = crate::model::SecretVersionView { create_time: v.create_time, ..a1 };
    let a3 = crate::model::SecretVersionView { destroy_time: v.destroy_time, ..a2 };
    let a4 = crate::model::SecretVersionView { state: v.state, ..a3 };
    let a5 = crate::model::SecretVersionView { replication_status: v.replication_status, ..a4 };
    let a6 = crate::model::SecretVersionView { etag: v.etag, ..a5 };
    let a7 = crate::model::SecretVersionView { client_specified_payload_checksum: v.client_specified_payload_checksum, ..a6 };
    let a8 = crate::model::SecretVersionView { scheduled_destroy_time: v.scheduled_destroy_time, ..a7 };
    lemma_secret_version_rt_replication_status(v, a4);
    lemma_dec_secret_version_entries_concat(s5, t6, a4);
    assert(dec_secret_version_entries(t5, a4) == dec_secret_version_entries(t6, a5));
    lemma_secret_version_rt_etag(v, a5);
    lemma_dec_secret_version_entries_concat(s6, t7, a5);
    assert(dec_secret_version_entries(t6, a5) == dec_secret_version_entries(t7, a6));
    lemma_secret_version_rt_client_specified_payload_checksum(v, a6);
    lemma_dec_secret_version_entries_concat(s7, t8, a6);
    assert(dec_secret_version_entries(t7, a6) == dec_secret_version_entries(t8, a7));
    lemma_secret_version_rt_scheduled_destroy_time(v, a7);
    lemma_dec_secret_version_entries_concat(s8, t9, a7);
    assert(dec_secret_version_entries(t8, a7) == dec_secret_version_entries(t9, a8));
}

/// One stretch of the fields of a secret version, decoded in order.
#[verifier::rlimit(100)]
proof fn lemma_secret_version_rt_part3(v: crate::model::SecretVersionView)
    requires
        v.wf(),
        secret_version_text_facts(v),
    ensures
        dec_secret_version_entries((match v.customer_managed_encryption { Some(x) => seq![("customerManagedEncryption"@, enc_customer_managed_encryption_status(x))], None => Seq::empty() }), crate::model::SecretVersionView { scheduled_destroy_time: v.scheduled_destroy_time, ..crate::model::SecretVersionView { client_specified_payload_checksum: v.client_specified_payload_checksum, ..crate::model::SecretVersionView { etag: v.etag, ..crate::model::SecretVersionView { replication_status: v.replication_status, ..crate::model::SecretVersionView { state: v.state, ..crate::model::SecretVersionView { destroy_time: v.destroy_time, ..crate::model::SecretVersionView { create_time: v.create_time, ..crate::model::SecretVersionView { name: v.name, ..crate::model::SecretVersionView::default_v() } } } } } } } }) == Some(crate::model::SecretVersionView { customer_managed_encryption: v.customer_managed_encryption, ..crate::model::SecretVersionView { scheduled_destroy_time: v.scheduled_destroy_time, ..crate::model::SecretVersionView { client_specified_payload_checksum: v.client_specified_payload_checksum, ..crate::model::SecretVersionView { etag: v.etag, ..crate::model::SecretVersionView { replication_status: v.replication_status, ..crate::model::SecretVersionView { state: v.state, ..crate::model::SecretVersionView { destroy_time: v.destroy_time, ..crate::model::SecretVersionView { create_time: v.create_time, ..crate::model::SecretVersionView { name: v.name, ..crate::model::SecretVersionView::default_v() } } } } } } } } }),
{
    let s9 = (match v.customer_managed_encryption { Some(x) => seq![("customerManagedEncryption"@, enc_customer_managed_encryption_status(x))], None => Seq::empty() });
    let t9 = s9;
    let a0 = crate::model::SecretVersionView::default_v();
    let a1 = crate::model::SecretVersionView { name: v.name, ..a0 };
    let a2 = crate::model::SecretVersionView { create_time: v.create_time, ..a1 };
    let a3 = crate::model::SecretVersionView { destroy_time: v.destroy_time, ..a2 };
    let a4 = crate::model::SecretVersionView { state: v.state, ..a3 };
    let a5 = crate::model::SecretVersionView { replication_status: v.replication_status, ..a4 };
    let a6 = crate::model::SecretVersionView { etag: v.etag, ..a5 };
    let a7 = crate::model::SecretVersionView { client_specified_payload_checksum: v.client_specified_payload_checksum, ..a6 };
    let a8 = crate::model::SecretVersionView { scheduled_destroy_time: v.scheduled_destroy_time, ..a7 };
    let a9 = crate::model::SecretVersionView { customer_managed_encryption: v.customer_managed_encryption, ..a8 };
    lemma_secret_version_rt_customer_managed_encryption(v, a8);
    assert(dec_secret_version_entries(t9, a8) == Some(a9));
}

/// The schema-order entry list, reassociated for segment-by-segment
/// decoding.
#[verifier::rlimit(100)]
proof fn lemma_secret_version_entries_assoc(v: crate::model::SecretVersionView)
    ensures
        enc_secret_version_entries(v) == seq![("name"@, JsonView::Str(v.name))] + ((match v.create_time { Some(t) => seq![("createTime"@, JsonView::Str(timestamp_text(t.seconds, t.nanos)))], None => Seq::empty() }) + ((match v.destroy_time { Some(t) => seq![("destroyTime"@, JsonView::Str(timestamp_text(t.seconds, t.nanos)))], None => Seq::empty() }) + (seq![("state"@, JsonView::Str(v.state))] + ((match v.replication_status { Some(x) => seq![("replicationStatus"@, enc_replication_status(x))], None => Seq::empty() }) + (seq![("etag"@, JsonView::Str(v.etag))] + (seq![("clientSpecifiedPayloadChecksum"@, JsonView::Bool(v.client_specified_payload_checksum))] + ((match v.scheduled_destroy_time { Some(t) => seq![("scheduledDestroyTime"@, JsonView::Str(timestamp_text(t.seconds, t.nanos)))], None => Seq::empty() }) + ((match v.customer_managed_encryption { Some(x) => seq![("customerManagedEncryption"@, enc_customer_managed_encryption_status(x))], None => Seq::empty() }))))))))),
{
    let s1 = seq![("name"@, JsonView::Str(v.name))];
    let s2 = (match v.create_time { Some(t) => seq![("createTime"@, JsonView::Str(timestamp_text(t.seconds, t.nanos)))], None => Seq::empty() });
    let s3 = (match v.destroy_time { Some(t) => seq![("destroyTime"@, JsonView::Str(timestamp_text(t.seconds, t.nanos)))], None => Seq::empty() });
    let s4 = seq![("state"@, JsonView::Str(v.state))];
    let s5 = (match v.replication_status { Some(x) => seq![("replicationStatus"@, enc_replication_status(x))], None => Seq::empty() });
    let s6 = seq![("etag"@, JsonView::Str(v.etag))];
    let s7 = seq![("clientSpecifiedPayloadChecksum"@, JsonView::Bool(v.client_specified_payload_checksum))];
    let s8 = (match v.scheduled_destroy_time { Some(t) => seq![("scheduledDestroyTime"@, JsonView::Str(timestamp_text(t.seconds, t.nanos)))], None => Seq::empty() });
    let s9 = (match v.customer_managed_encryption { Some(x) => seq![("customerManagedEncryption"@, enc_customer_managed_encryption_status(x))], None => Seq::empty() });
    let t9 = s9;
    let t8 = s8 + t9;
    let t7 = s7 + t8;
    let t6 = s6 + t7;
    let t5 = s5 + t6;
    let t4 = s4 + t5;
    let t3 = s3 + t4;
    let t2 = s2 + t3;
    let t1 = s1 + t2;
    let l1 = s1;
    let l2 = l1 + s2;
    let l3 = l2 + s3;
    let l4 = l3 + s4;
    let l5 = l4 + s5;
    let l6 = l5 + s6;
    let l7 = l6 + s7;
    let l8 = l7 + s8;
    let l9 = l8 + s9;
    assert(l1 + t2 == t1);
    vstd::seq_lib::lemma_concat_associative(l1, s2, t3);
    assert(l2 + t3 == l1 + t2);
    vstd::seq_lib::lemma_concat_associative(l2, s3, t4);
    assert(l3 + t4 == l2 + t3);
    vstd::seq_lib::lemma_concat_associative(l3, s4, t5);
    assert(l4 + t5 == l3 + t4);
    vstd::seq_lib::lemma_concat_associative(l4, s5, t6);
    assert(l5 + t6 == l4 + t5);
    vstd::seq_lib::lemma_concat_associative(l5, s6, t7);
    assert(l6 + t7 == l5 + t6);
    vstd::seq_lib::lemma_concat_associative(l6, s7, t8);
    assert(l7 + t8 == l6 + t7);
    vstd::seq_lib::lemma_concat_associative(l7, s8, t9);
    assert(l8 + t9 == l7 + t8);
    assert(l8 + t9 == t1);
    assert(enc_secret_version_entries(v) == l9);
    assert(enc_secret_version_entries(v) == t1);
}

/// Law: a secret version survives the wire: decoding its encoding gives back the
/// same value, field for field.
#[verifier::rlimit(100)]
pub proof fn lemma_secret_version_round_trip(v: crate::model::SecretVersionView)
    requires
        v.wf(),
        secret_version_text_facts(v),
    ensures
        dec_secret_version(enc_secret_version(v)) == Some(v),
{
    let s1 = seq![("name"@, JsonView::Str(v.name))];
    let s2 = (match v.create_time { Some(t) => seq![("createTime"@, JsonView::Str(timestamp_text(t.seconds, t.nanos)))], None => Seq::empty() });
    let s3 = (match v.destroy_time { Some(t) => seq![("destroyTime"@, JsonView::Str(timestamp_text(t.seconds, t.nanos)))], None => Seq::empty() });
    let s4 = seq![("state"@, JsonView::Str(v.state))];
    let s5 = (match v.replication_status { Some(x) => seq![("replicationStatus"@, enc_replication_status(x))], None => Seq::empty() });
    let s6 = seq![("etag"@, JsonView::Str(v.etag))];
    let s7 = seq![("clientSpecifiedPayloadChecksum"@, JsonView::Bool(v.client_specified_payload_checksum))];
    let s8 = (match v.scheduled_destroy_time { Some(t) => seq![("scheduledDestroyTime"@, JsonView::Str(timestamp_text(t.seconds, t.nanos)))], None => Seq::empty() });
    let s9 = (match v.customer_managed_encryption { Some(x) => seq![("customerManagedEncryption"@, enc_customer_managed_encryption_status(x))], None => Seq::empty() });
    let t9 = s9;
    let t8 = s8 + t9;
    let t7 = s7 + t8;
    let t6 = s6 + t7;
    let t5 = s5 + t6;
    let t4 = s4 + t5;
    let t3 = s3 + t4;
    let t2 = s2 + t3;
    let t1 = s1 + t2;
    let a0 = crate::model::SecretVersionView::default_v();
    let a1 = crate::model::SecretVersionView { name: v.name, ..a0 };
    let a2 = crate::model::SecretVersionView { create_time: v.create_time, ..a1 };
    let a3 = crate::model::SecretVersionView { destroy_time: v.destroy_time, ..a2 };
    let a4 = crate::model::SecretVersionView { state: v.state, ..a3 };
    let a5 = crate::model::SecretVersionView { replication_status: v.replication_status, ..a4 };
    let a6 = crate::model::SecretVersionView { etag: v.etag, ..a5 };
    let a7 = crate::model::SecretVersionView { client_specified_payload_checksum: v.client_specified_payload_checksum, ..a6 };
    let a8 = crate::model::SecretVersionView { scheduled_destroy_time: v.scheduled_destroy_time, ..a7 };
    let a9 = crate::model::SecretVersionView { customer_managed_encryption: v.customer_managed_encryption, ..a8 };
    lemma_secret_version_entries_assoc(v);
    assert(enc_secret_version_entries(v) == t1);
    lemma_secret_version_rt_part1(v);
    lemma_secret_version_rt_part2(v);
    lemma_secret_version_rt_part3(v);
    assert(a9 == v);
    assert(dec_secret_version_entries(enc_secret_version_entries(v), a0) == Some(v));
}

} // verus!



verus! {

impl crate::model::ListSecretsRequestView {
    /// Whether everything the request or response contains is well-formed.
    pub open spec fn wf(self) -> bool {
        true
    }
}


impl crate::model::ListSecretsResponseView {
    /// Whether everything the request or response contains is well-formed.
    pub open spec fn wf(self) -> bool {
        (forall|i: int| 0 <= i < self.secrets.len() ==> (#[trigger] self.secrets[i]).wf())
    }
}


impl crate::model::CreateSecretRequestView {
    /// Whether everything the request or response contains is well-formed.
    pub open spec fn wf(self) -> bool {
        (match self.secret { Some(x) => x.wf(), None => true })
    }
}


impl crate::model::AddSecretVersionRequestView {
    /// Whether everything the request or response contains is well-formed.
    pub open spec fn wf(self) -> bool {
        (match self.payload { Some(x) => x.wf(), None => true })
    }
}


impl crate::model::GetSecretRequestView {
    /// Whether everything the request or response contains is well-formed.
    pub open spec fn wf(self) -> bool {
        true
    }
}


impl crate::model::ListSecretVersionsRequestView {
    /// Whether everything the request or response contains is well-formed.
    pub open spec fn wf(self) -> bool {
        true
    }
}


impl crate::model::ListSecretVersionsResponseView {
    /// Whether everything the request or response contains is well-formed.
    pub open spec fn wf(self) -> bool {
        (forall|i: int| 0 <= i < self.versions.len() ==> (#[trigger] self.versions[i]).wf())
    }
}


impl crate::model::GetSecretVersionRequestView {
    /// Whether everything the request or response contains is well-formed.
    pub open spec fn wf(self) -> bool {
        true
    }
}


impl crate::model::UpdateSecretRequestView {
    /// Whether everything the request or response contains is well-formed.
    pub open spec fn wf(self) -> bool {
        &&& (match self.secret { Some(x) => x.wf(), None => true })
        &&& (match self.update_mask { Some(ps) => forall|i: int| 0 <= i < ps.len() ==> crate::wellknown::wf_path(#[trigger] ps[i]), None => true })
    }
}


impl crate::model::AccessSecretVersionRequestView {
    /// Whether everything the request or response contains is well-formed.
    pub open spec fn wf(self) -> bool {
        true
    }
}


impl crate::model::AccessSecretVersionResponseView {
    /// Whether everything the request or response contains is well-formed.
    pub open spec fn wf(self) -> bool {
        (match self.payload { Some(x) => x.wf(), None => true })
    }
}


impl crate::model::DeleteSecretRequestView {
    /// Whether everything the request or response contains is well-formed.
    pub open spec fn wf(self) -> bool {
        true
    }
}


impl crate::model::DisableSecretVersionRequestView {
    /// Whether everything the request or response contains is well-formed.
    pub open spec fn wf(self) -> bool {
        true
    }
}


impl crate::model::EnableSecretVersionRequestView {
    /// Whether everything the request or response contains is well-formed.
    pub open spec fn wf(self) -> bool {
        true
    }
}


impl crate::model::DestroySecretVersionRequestView {
    /// Whether everything the request or response contains is well-formed.
    pub open spec fn wf(self) -> bool {
        true
    }
}


/// Decodes each element of an array as this record; any failing element
/// fails the array.
pub open spec fn dec_secret_arr(items: Seq<JsonView>) -> Option<Seq<crate::model::SecretView>>
    decreases items.len(),
{
    if items.len() == 0 {
        Some(Seq::empty())
    } else {
        match dec_secret(items[0]) {
            Some(x) => match dec_secret_arr(items.skip(1)) {
                Some(rest) => Some(seq![x] + rest),
                None => None,
            },
            None => None,
        }
    }
}

/// The view of an executable list of these records.
pub open spec fn secret_vec_view(xs: Vec<crate::model::Secret>) -> Seq<crate::model::SecretView> {
    Seq::new(xs@.len(), |i: int| xs@[i]@)
}

/// An encoded array of well-formed records decodes to the same records.
pub proof fn lemma_secret_arr_round_trip(vs: Seq<crate::model::SecretView>)
    requires
        forall|i: int| 0 <= i < vs.len() ==> (#[trigger] vs[i]).wf(),
        forall|i: int| 0 <= i < vs.len() ==> secret_text_facts(#[trigger] vs[i]),
    ensures
        dec_secret_arr(Seq::new(vs.len(), |i: int| enc_secret(vs[i]))) == Some(vs),
    decreases vs.len(),
{
    let items = Seq::new(vs.len(), |i: int| enc_secret(vs[i]));
    if vs.len() == 0 {
        assert(vs =~= Seq::<crate::model::SecretView>::empty());
    } else {
        assert(vs[0].wf());
        assert(secret_text_facts(vs[0]));
        lemma_secret_round_trip(vs[0]);
        assert(items[0] == enc_secret(vs[0]));
        lemma_secret_arr_round_trip(vs.skip(1));
        assert(items.skip(1) =~= Seq::new(vs.skip(1).len(), |i: int| enc_secret(vs.skip(1)[i])));
        assert(seq![vs[0]] + vs.skip(1) =~= vs);
    }
}

/// Decodes an array of these records.
fn decode_secret_vec(items: &Vec<Json>) -> (r: Result<Vec<crate::model::Secret>, Error>)
    ensures
        match r {
            Ok(xs) => dec_secret_arr(items_view(*items)) == Some(secret_vec_view(xs)),
            Err(e) => dec_secret_arr(items_view(*items)) is None && e.kind == ErrorKind::Serde,
        },
{
    let ghost iv = items_view(*items);
    let mut xs: Vec<crate::model::Secret> = Vec::new();
    let mut k: usize = 0;
    proof {
        assert(iv.skip(0) =~= iv);
        assert(secret_vec_view(xs) =~= Seq::<crate::model::SecretView>::empty());
    }
    while k < items.len()
        invariant
            k <= items@.len(),
            iv == items_view(*items),
            iv.len() == items@.len(),
            dec_secret_arr(iv) == (match dec_secret_arr(iv.skip(k as int)) {
                Some(rest) => Some(secret_vec_view(xs) + rest),
                None => None::<Seq<crate::model::SecretView>>,
            }),
        decreases items@.len() - k,
    {
        proof {
            assert(iv.skip(k as int)[0] == iv[k as int]);
            assert(iv[k as int] == items@[k as int]@);
            assert(iv.skip(k as int).skip(1) =~= iv.skip(k as int + 1));
        }
        match decode_secret(&items[k]) {
            Ok(x) => {
                let ghost xs0 = secret_vec_view(xs);
                xs.push(x);
                proof {
                    assert(secret_vec_view(xs) =~= xs0 + seq![x@]);
                    match dec_secret_arr(iv.skip(k as int + 1)) {
                        Some(rest) => {
                            assert((xs0 + seq![x@]) + rest =~= xs0 + (seq![x@] + rest));
                        },
                        None => {},
                    }
                }
            },
            Err(e) => {
                return Err(e);
            },
        }
        k += 1;
    }
    proof {
        assert(iv.skip(k as int).len() == 0);
        assert(secret_vec_view(xs) + Seq::<crate::model::SecretView>::empty() =~= secret_vec_view(xs));
    }
    Ok(xs)
}

/// Decodes each element of an array as this record; any failing element
/// fails the array.
pub open spec fn dec_secret_version_arr(items: Seq<JsonView>) -> Option<Seq<crate::model::SecretVersionView>>
    decreases items.len(),
{
    if items.len() == 0 {
        Some(Seq::empty())
    } else {
        match dec_secret_version(items[0]) {
            Some(x) => match dec_secret_version_arr(items.skip(1)) {
                Some(rest) => Some(seq![x] + rest),
                None => None,
            },
            None => None,
        }
    }
}

/// The view of an executable list of these records.
pub open spec fn secret_version_vec_view(xs: Vec<crate::model::SecretVersion>) -> Seq<crate::model::SecretVersionView> {
    Seq::new(xs@.len(), |i: int| xs@[i]@)
}

/// An encoded array of well-formed records decodes to the same records.
pub proof fn lemma_secret_version_arr_round_trip(vs: Seq<crate::model::SecretVersionView>)
    requires
        forall|i: int| 0 <= i < vs.len() ==> (#[trigger] vs[i]).wf(),
        forall|i: int| 0 <= i < vs.len() ==> secret_version_text_facts(#[trigger] vs[i]),
    ensures
        dec_secret_version_arr(Seq::new(vs.len(), |i: int| enc_secret_version(vs[i]))) == Some(vs),
    decreases vs.len(),
{
    let items = Seq::new(vs.len(), |i: int| enc_secret_version(vs[i]));
    if vs.len() == 0 {
        assert(vs =~= Seq::<crate::model::SecretVersionView>::empty());
    } else {
        assert(vs[0].wf());
        assert(secret_version_text_facts(vs[0]));
        lemma_secret_version_round_trip(vs[0]);
        assert(items[0] == enc_secret_version(vs[0]));
        lemma_secret_version_arr_round_trip(vs.skip(1));
        assert(items.skip(1) =~= Seq::new(vs.skip(1).len(), |i: int| enc_secret_version(vs.skip(1)[i])));
        assert(seq![vs[0]] + vs.skip(1) =~= vs);
    }
}

/// Decodes an array of these records.
fn decode_secret_version_vec(items: &Vec<Json>) -> (r: Result<Vec<crate::model::SecretVersion>, Error>)
    ensures
        match r {
            Ok(xs) => dec_secret_version_arr(items_view(*items)) == Some(secret_version_vec_view(xs)),
            Err(e) => dec_secret_version_arr(items_view(*items)) is None && e.kind == ErrorKind::Serde,
        },
{
    let ghost iv = items_view(*items);
    let mut xs: Vec<crate::model::SecretVersion> = Vec::new();
    let mut k: usize = 0;
    proof {
        assert(iv.skip(0) =~= iv);
        assert(secret_version_vec_view(xs) =~= Seq::<crate::model::SecretVersionView>::empty());
    }
    while k < items.len()
        invariant
            k <= items@.len(),
            iv == items_view(*items),
            iv.len() == items@.len(),
            dec_secret_version_arr(iv) == (match dec_secret_version_arr(iv.skip(k as int)) {
                Some(rest) => Some(secret_version_vec_view(xs) + rest),
                None => None::<Seq<crate::model::SecretVersionView>>,
            }),
        decreases items@.len() - k,
    {
        proof {
            assert(iv.skip(k as int)[0] == iv[k as int]);
            assert(iv[k as int] == items@[k as int]@);
            assert(iv.skip(k as int).skip(1) =~= iv.skip(k as int + 1));
        }
        match decode_secret_version(&items[k]) {
            Ok(x) => {
                let ghost xs0 = secret_version_vec_view(xs);
                xs.push(x);
                proof {
                    assert(secret_version_vec_view(xs) =~= xs0 + seq![x@]);
                    match dec_secret_version_arr(iv.skip(k as int + 1)) {
                        Some(rest) => {
                            assert((xs0 + seq![x@]) + rest =~= xs0 + (seq![x@] + rest));
                        },
                        None => {},
                    }
                }
            },
            Err(e) => {
                return Err(e);
            },
        }
        k += 1;
    }
    proof {
        assert(iv.skip(k as int).len() == 0);
        assert(secret_version_vec_view(xs) + Seq::<crate::model::SecretVersionView>::empty() =~= secret_version_vec_view(xs));
    }
    Ok(xs)
}

/// The wire entries of a list-secrets request, in schema order.
pub open spec fn enc_list_secrets_request_entries(v: crate::model::ListSecretsRequestView) -> Seq<(Seq<char>, JsonView)> {
    seq![("parent"@, JsonView::Str(v.parent))]
        + seq![("pageSize"@, JsonView::Int(v.page_size as i64))]
        + seq![("pageToken"@, JsonView::Str(v.page_token))]
        + seq![("filter"@, JsonView::Str(v.filter))]
}

/// The wire form of a list-secrets request.
pub open spec fn enc_list_secrets_request(v: crate::model::ListSecretsRequestView) -> JsonView {
    JsonView::Obj(enc_list_secrets_request_entries(v))
}

/// One decoding step of a list-secrets request: a known key fills its field, null
/// counts as absent, an unknown key is skipped.
pub open spec fn dec_list_secrets_request_field(acc: crate::model::ListSecretsRequestView, key: Seq<char>, val: JsonView) -> Option<crate::model::ListSecretsRequestView> {
    if key == "parent"@ {
        if val is Null {
            Some(acc)
        } else {
            match field_str(val) {
                Some(s) => Some(crate::model::ListSecretsRequestView { parent: s, ..acc }),
                None => None,
            }
        }
    } else if key == "pageSize"@ {
        if val is Null {
            Some(acc)
        } else {
            match field_i32(val) {
                Some(n) => Some(crate::model::ListSecretsRequestView { page_size: n, ..acc }),
                None => None,
            }
        }
    } else if key == "pageToken"@ {
        if val is Null {
            Some(acc)
        } else {
            match field_str(val) {
                Some(s) => Some(crate::model::ListSecretsRequestView { page_token: s, ..acc }),
                None => None,
            }
        }
    } else if key == "filter"@ {
        if val is Null {
            Some(acc)
        } else {
            match field_str(val) {
                Some(s) => Some(crate::model::ListSecretsRequestView { filter: s, ..acc }),
                None => None,
            }
        }
    } else {
        Some(acc)
    }
}

/// Decoding over the entries of a list-secrets request, entry by entry.
pub open spec fn dec_list_secrets_request_entries(es: Seq<(Seq<char>, JsonView)>, acc: crate::model::ListSecretsRequestView) -> Option<crate::model::ListSecretsRequestView>
    decreases es.len(),
{
    if es.len() == 0 {
        Some(acc)
    } else {
        match dec_list_secrets_request_field(acc, es[0].0, es[0].1) {
            Some(a2) => dec_list_secrets_request_entries(es.skip(1), a2),
            None => None,
        }
    }
}

/// The value of a list-secrets request a wire value denotes, starting from the default.
pub open spec fn dec_list_secrets_request(j: JsonView) -> Option<crate::model::ListSecretsRequestView> {
    match j {
        JsonView::Obj(es) => dec_list_secrets_request_entries(es, crate::model::ListSecretsRequestView::default_v()),
        _ => None,
    }
}

/// Decoding distributes over concatenated entry lists.
proof fn lemma_dec_list_secrets_request_entries_concat(
    a: Seq<(Seq<char>, JsonView)>,
    b: Seq<(Seq<char>, JsonView)>,
    acc: crate::model::ListSecretsRequestView,
)
    ensures
        dec_list_secrets_request_entries(a + b, acc) == match dec_list_secrets_request_entries(a, acc) {
            Some(m) => dec_list_secrets_request_entries(b, m),
            None => None::<crate::model::ListSecretsRequestView>,
        },
    decreases a.len(),
{
    if a.len() == 0 {
        assert(a + b =~= b);
    } else {
        assert((a + b)[0] == a[0]);
        match dec_list_secrets_request_field(acc, a[0].0, a[0].1) {
            Some(m) => {
                lemma_dec_list_secrets_request_entries_concat(a.skip(1), b, m);
                assert((a + b).skip(1) =~= a.skip(1) + b);
            },
            None => {},
        }
    }
}

/// Encodes a list-secrets request in its wire form.
pub fn encode_list_secrets_request(v: &crate::model::ListSecretsRequest) -> (r: Json)
    requires
        v@.wf(),
    ensures
        r@ == enc_list_secrets_request(v@),
{
    let ghost vv = v@;
    let mut es: Vec<(String, Json)> = Vec::new();
    let ghost mut expect: Seq<(Seq<char>, JsonView)> = Seq::empty();
    proof {
        assert(entries_view(es) =~= expect);
    }
        es.push(("parent".to_owned(), Json::Str(v.parent.clone())));
        proof {
            expect = expect + seq![("parent"@, JsonView::Str(vv.parent))];
            assert(entries_view(es) =~= expect);
        }
        es.push(("pageSize".to_owned(), Json::Int(v.page_size as i64)));
        proof {
            expect = expect + seq![("pageSize"@, JsonView::Int(vv.page_size as i64))];
            assert(entries_view(es) =~= expect);
        }
        es.push(("pageToken".to_owned(), Json::Str(v.page_token.clone())));
        proof {
            expect = expect + seq![("pageToken"@, JsonView::Str(vv.page_token))];
            assert(entries_view(es) =~= expect);
        }
        es.push(("filter".to_owned(), Json::Str(v.filter.clone())));
        proof {
            expect = expect + seq![("filter"@, JsonView::Str(vv.filter))];
            assert(entries_view(es) =~= expect);
        }
    let r = Json::Obj(es);
    proof {
        lemma_obj_view(r->Obj_0);
        assert(expect =~= enc_list_secrets_request_entries(vv));
    }
    r
}

/// Decodes a list-secrets request from its wire form: unknown keys are skipped, null
/// values and missing fields leave the default, and a value of the wrong
/// shape for its key is a serialization error naming the field.
pub fn decode_list_secrets_request(v: &Json) -> (r: Result<crate::model::ListSecretsRequest, Error>)
    ensures
        match r {
            Ok(out) => dec_list_secrets_request(v@) == Some(out@),
            Err(e) => dec_list_secrets_request(v@) is None && e.kind == ErrorKind::Serde,
        },
{
    let es = match v {
        Json::Obj(es) => es,
        _ => {
            return Err(shape_error("ListSecretsRequest"));
        },
    };
    let ghost es0 = entries_view(*es);
    proof {
        lemma_obj_view(*es);
    }
    let mut out = crate::model::ListSecretsRequest::default();
    let mut i: usize = 0;
    proof {
        assert(es0.skip(0) =~= es0);
    }
    while i < es.len()
        invariant
            i <= es@.len(),
            es0 == entries_view(*es),
            es0.len() == es@.len(),
            v@ == JsonView::Obj(es0),
            dec_list_secrets_request_entries(es0, crate::model::ListSecretsRequestView::default_v()) == dec_list_secrets_request_entries(
                es0.skip(i as int),
                out@,
            ),
        decreases es@.len() - i,
    {
        let ghost pre = es0.skip(i as int);
        proof {
            assert(pre[0] == es0[i as int]);
            assert(es0[i as int] == (es@[i as int].0@, es@[i as int].1@));
            assert(pre.skip(1) =~= es0.skip(i as int + 1));
        }
        let key = &es[i].0;
        let val = &es[i].1;
        if str_eq(key.as_str(), "parent") {
                if let Json::Null = val {
                } else {
                    match jv_str(val) {
                    Ok(x) => {
                        out = crate::model::ListSecretsRequest { parent: x, ..out };
                    },
                    Err(_) => {
                        return Err(field_error("ListSecretsRequest", "parent"));
                    },
                }
                }
            } else if str_eq(key.as_str(), "pageSize") {
                if let Json::Null = val {
                } else {
                    match jv_i32(val) {
                    Ok(x) => {
                        out = crate::model::ListSecretsRequest { page_size: x, ..out };
                    },
                    Err(_) => {
                        return Err(field_error("ListSecretsRequest", "pageSize"));
                    },
                }
                }
            } else if str_eq(key.as_str(), "pageToken") {
                if let Json::Null = val {
                } else {
                    match jv_str(val) {
                    Ok(x) => {
                        out = crate::model::ListSecretsRequest { page_token: x, ..out };
                    },
                    Err(_) => {
                        return Err(field_error("ListSecretsRequest", "pageToken"));
                    },
                }
                }
            } else if str_eq(key.as_str(), "filter") {
                if let Json::Null = val {
                } else {
                    match jv_str(val) {
                    Ok(x) => {
                        out = crate::model::ListSecretsRequest { filter: x, ..out };
                    },
                    Err(_) => {
                        return Err(field_error("ListSecretsRequest", "filter"));
                    },
                }
                }
            }
        i += 1;
    }
    proof {
        assert(es0.skip(i as int).len() == 0);
    }
    Ok(out)
}

/// Law: a list-secrets request survives the wire: decoding its encoding gives back the
/// same value, field for field.
pub proof fn lemma_list_secrets_request_round_trip(v: crate::model::ListSecretsRequestView)
    requires
        v.wf(),
    ensures
        dec_list_secrets_request(enc_list_secrets_request(v)) == Some(v),
{
    reveal_strlit("parent");
    reveal_strlit("pageSize");
    reveal_strlit("pageToken");
    reveal_strlit("filter");
    assert(("parent"@).len() == 6);
    assert(("pageSize"@).len() == 8);
    assert(("pageToken"@).len() == 9);
    assert(("filter"@).len() == 6);
    assert("parent"@ != "pageSize"@);
    assert("parent"@ != "pageToken"@);
    assert(("parent"@)[0] == 'p' && ("filter"@)[0] == 'f');
    assert("parent"@ != "filter"@);
    assert("pageSize"@ != "pageToken"@);
    assert("pageSize"@ != "filter"@);
    assert("pageToken"@ != "filter"@);
    let a0 = crate::model::ListSecretsRequestView::default_v();
    let s1 = seq![("parent"@, JsonView::Str(v.parent))];
    let s2 = seq![("pageSize"@, JsonView::Int(v.page_size as i64))];
    let s3 = seq![("pageToken"@, JsonView::Str(v.page_token))];
    let s4 = seq![("filter"@, JsonView::Str(v.filter))];
    let t4 = s4;
    let t3 = s3 + t4;
    let t2 = s2 + t3;
    let t1 = s1 + t2;
    assert(enc_list_secrets_request_entries(v) =~= t1);
    let a1 = crate::model::ListSecretsRequestView { parent: v.parent, ..a0 };
    let a2 = crate::model::ListSecretsRequestView { page_size: v.page_size, ..a1 };
    let a3 = crate::model::ListSecretsRequestView { page_token: v.page_token, ..a2 };
    let a4 = crate::model::ListSecretsRequestView { filter: v.filter, ..a3 };
    {
        assert(dec_list_secrets_request_field(a0, "parent"@, JsonView::Str(v.parent)) == Some(a1));
        assert(s1.len() == 1);
        assert(s1.skip(1).len() == 0);
        assert(dec_list_secrets_request_entries(s1.skip(1), a1) == Some(a1));
        assert(dec_list_secrets_request_entries(s1, a0) == Some(a1));
    }
    {
        assert(dec_list_secrets_request_field(a1, "pageSize"@, JsonView::Int(v.page_size as i64)) == Some(a2));
        assert(s2.len() == 1);
        assert(s2.skip(1).len() == 0);
        assert(dec_list_secrets_request_entries(s2.skip(1), a2) == Some(a2));
        assert(dec_list_secrets_request_entries(s2, a1) == Some(a2));
    }
    {
        assert(dec_list_secrets_request_field(a2, "pageToken"@, JsonView::Str(v.page_token)) == Some(a3));
        assert(s3.len() == 1);
        assert(s3.skip(1).len() == 0);
        assert(dec_list_secrets_request_entries(s3.skip(1), a3) == Some(a3));
        assert(dec_list_secrets_request_entries(s3, a2) == Some(a3));
    }
    {
        assert(dec_list_secrets_request_field(a3, "filter"@, JsonView::Str(v.filter)) == Some(a4));
        assert(s4.len() == 1);
        assert(s4.skip(1).len() == 0);
        assert(dec_list_secrets_request_entries(s4.skip(1), a4) == Some(a4));
        assert(dec_list_secrets_request_entries(s4, a3) == Some(a4));
    }
    lemma_dec_list_secrets_request_entries_concat(s1, t2, a0);
    assert(dec_list_secrets_request_entries(t1, a0) == dec_list_secrets_request_entries(t2, a1));
    lemma_dec_list_secrets_request_entries_concat(s2, t3, a1);
    assert(dec_list_secrets_request_entries(t2, a1) == dec_list_secrets_request_entries(t3, a2));
    lemma_dec_list_secrets_request_entries_concat(s3, t4, a2);
    assert(dec_list_secrets_request_entries(t3, a2) == dec_list_secrets_request_entries(t4, a3));
    assert(dec_list_secrets_request_entries(t4, a3) == Some(a4));
    assert(a4 == v);
    assert(dec_list_secrets_request_entries(enc_list_secrets_request_entries(v), a0) == Some(v));
}

/// The wire entries of a list-secrets response, in schema order.
pub open spec fn enc_list_secrets_response_entries(v: crate::model::ListSecretsResponseView) -> Seq<(Seq<char>, JsonView)> {
    seq![("secrets"@, JsonView::Arr(Seq::new(v.secrets.len(), |i: int| enc_secret(v.secrets[i]))))]
        + seq![("nextPageToken"@, JsonView::Str(v.next_page_token))]
        + seq![("totalSize"@, JsonView::Int(v.total_size as i64))]
}

/// The wire form of a list-secrets response.
pub open spec fn enc_list_secrets_response(v: crate::model::ListSecretsResponseView) -> JsonView {
    JsonView::Obj(enc_list_secrets_response_entries(v))
}

/// One decoding step of a list-secrets response: a known key fills its field, null
/// counts as absent, an unknown key is skipped.
pub open spec fn dec_list_secrets_response_field(acc: crate::model::ListSecretsResponseView, key: Seq<char>, val: JsonView) -> Option<crate::model::ListSecretsResponseView> {
    if key == "secrets"@ {
        if val is Null {
            Some(acc)
        } else {
            match val {
                JsonView::Arr(items) => match dec_secret_arr(items) {
                    Some(xs) => Some(crate::model::ListSecretsResponseView { secrets: xs, ..acc }),
                    None => None,
                },
                _ => None,
            }
        }
    } else if key == "nextPageToken"@ {
        if val is Null {
            Some(acc)
        } else {
            match field_str(val) {
                Some(s) => Some(crate::model::ListSecretsResponseView { next_page_token: s, ..acc }),
                None => None,
            }
        }
    } else if key == "totalSize"@ {
        if val is Null {
            Some(acc)
        } else {
            match field_i32(val) {
                Some(n) => Some(crate::model::ListSecretsResponseView { total_size: n, ..acc }),
                None => None,
            }
        }
    } else {
        Some(acc)
    }
}

/// Decoding over the entries of a list-secrets response, entry by entry.
pub open spec fn dec_list_secrets_response_entries(es: Seq<(Seq<char>, JsonView)>, acc: crate::model::ListSecretsResponseView) -> Option<crate::model::ListSecretsResponseView>
    decreases es.len(),
{
    if es.len() == 0 {
        Some(acc)
    } else {
        match dec_list_secrets_response_field(acc, es[0].0, es[0].1) {
            Some(a2) => dec_list_secrets_response_entries(es.skip(1), a2),
            None => None,
        }
    }
}

/// The value of a list-secrets response a wire value denotes, starting from the default.
pub open spec fn dec_list_secrets_response(j: JsonView) -> Option<crate::model::ListSecretsResponseView> {
    match j {
        JsonView::Obj(es) => dec_list_secrets_response_entries(es, crate::model::ListSecretsResponseView::default_v()),
        _ => None,
    }
}

/// The facts about the trusted timestamp text conversion that the
/// round-trip law needs for this record: each contained timestamp's text
/// parses back to the same value. They are the contract of the rendering
/// wrapper, so every encoded record satisfies them.
pub open spec fn list_secrets_response_text_facts(v: crate::model::ListSecretsResponseView) -> bool {
    &&& (forall|i: int| 0 <= i < v.secrets.len() ==> secret_text_facts(#[trigger] v.secrets[i]))
}

/// Decoding distributes over concatenated entry lists.
proof fn lemma_dec_list_secrets_response_entries_concat(
    a: Seq<(Seq<char>, JsonView)>,
    b: Seq<(Seq<char>, JsonView)>,
    acc: crate::model::ListSecretsResponseView,
)
    ensures
        dec_list_secrets_response_entries(a + b, acc) == match dec_list_secrets_response_entries(a, acc) {
            Some(m) => dec_list_secrets_response_entries(b, m),
            None => None::<crate::model::ListSecretsResponseView>,
        },
    decreases a.len(),
{
    if a.len() == 0 {
        assert(a + b =~= b);
    } else {
        assert((a + b)[0] == a[0]);
        match dec_list_secrets_response_field(acc, a[0].0, a[0].1) {
            Some(m) => {
                lemma_dec_list_secrets_response_entries_concat(a.skip(1), b, m);
                assert((a + b).skip(1) =~= a.skip(1) + b);
            },
            None => {},
        }
    }
}

/// Encodes a list-secrets response in its wire form.
pub fn encode_list_secrets_response(v: &crate::model::ListSecretsResponse) -> (r: Json)
    requires
        v@.wf(),
    ensures
        r@ == enc_list_secrets_response(v@),
        list_secrets_response_text_facts(v@),
{
    let ghost vv = v@;
    let mut es: Vec<(String, Json)> = Vec::new();
    let ghost mut expect: Seq<(Seq<char>, JsonView)> = Seq::empty();
    proof {
        assert(entries_view(es) =~= expect);
    }
        {
            let mut items: Vec<Json> = Vec::new();
            let mut i: usize = 0;
            while i < v.secrets.len()
                invariant
                    i <= v.secrets@.len(),
                    vv == v@,
                    vv.wf(),
                    items@.len() == i as int,
                    forall|j: int| 0 <= j < i ==> items@[j]@ == enc_secret(#[trigger] vv.secrets[j]),
                    forall|j: int| 0 <= j < i ==> secret_text_facts(#[trigger] vv.secrets[j]),
                decreases v.secrets@.len() - i,
            {
                proof {
                    assert(vv.secrets[i as int] == v.secrets@[i as int]@);
                    assert(vv.secrets[i as int].wf());
                }
                items.push(encode_secret(&v.secrets[i]));
                i += 1;
            }
            proof {
                lemma_arr_view(items);
                assert(items_view(items) =~= Seq::new(vv.secrets.len(), |i: int| enc_secret(vv.secrets[i])));
            }
            es.push(("secrets".to_owned(), Json::Arr(items)));
        }
        proof {
            expect = expect + seq![("secrets"@, JsonView::Arr(Seq::new(vv.secrets.len(), |i: int| enc_secret(vv.secrets[i]))))];
            assert(entries_view(es) =~= expect);
        }
        es.push(("nextPageToken".to_owned(), Json::Str(v.next_page_token.clone())));
        proof {
            expect = expect + seq![("nextPageToken"@, JsonView::Str(vv.next_page_token))];
            assert(entries_view(es) =~= expect);
        }
        es.push(("totalSize".to_owned(), Json::Int(v.total_size as i64)));
        proof {
            expect = expect + seq![("totalSize"@, JsonView::Int(vv.total_size as i64))];
            assert(entries_view(es) =~= expect);
        }
    let r = Json::Obj(es);
    proof {
        lemma_obj_view(r->Obj_0);
        assert(expect =~= enc_list_secrets_response_entries(vv));
    }
    r
}

/// Decodes a list-secrets response from its wire form: unknown keys are skipped, null
/// values and missing fields leave the default, and a value of the wrong
/// shape for its key is a serialization error naming the field.
pub fn decode_list_secrets_response(v: &Json) -> (r: Result<crate::model::ListSecretsResponse, Error>)
    ensures
        match r {
            Ok(out) => dec_list_secrets_response(v@) == Some(out@),
            Err(e) => dec_list_secrets_response(v@) is None && e.kind == ErrorKind::Serde,
        },
{
    let es = match v {
        Json::Obj(es) => es,
        _ => {
            return Err(shape_error("ListSecretsResponse"));
        },
    };
    let ghost es0 = entries_view(*es);
    proof {
        lemma_obj_view(*es);
    }
    let mut out = crate::model::ListSecretsResponse::default();
    let mut i: usize = 0;
    proof {
        assert(es0.skip(0) =~= es0);
    }
    while i < es.len()
        invariant
            i <= es@.len(),
            es0 == entries_view(*es),
            es0.len() == es@.len(),
            v@ == JsonView::Obj(es0),
            dec_list_secrets_response_entries(es0, crate::model::ListSecretsResponseView::default_v()) == dec_list_secrets_response_entries(
                es0.skip(i as int),
                out@,
            ),
        decreases es@.len() - i,
    {
        let ghost pre = es0.skip(i as int);
        proof {
            assert(pre[0] == es0[i as int]);
            assert(es0[i as int] == (es@[i as int].0@, es@[i as int].1@));
            assert(pre.skip(1) =~= es0.skip(i as int + 1));
        }
        let key = &es[i].0;
        let val = &es[i].1;
        if str_eq(key.as_str(), "secrets") {
                if let Json::Null = val {
                } else {
                    match val {
                    Json::Arr(items) => {
                        proof {
                            lemma_arr_view(*items);
                        }
                        match decode_secret_vec(items) {
                            Ok(xs) => {
                                out = crate::model::ListSecretsResponse { secrets: xs, ..out };
                            },
                            Err(e) => {
                                return Err(e);
                            },
                        }
                    },
                    _ => {
                        return Err(field_error("ListSecretsResponse", "secrets"));
                    },
                }
                }
            } else if str_eq(key.as_str(), "nextPageToken") {
                if let Json::Null = val {
                } else {
                    match jv_str(val) {
                    Ok(x) => {
                        out = crate::model::ListSecretsResponse { next_page_token: x, ..out };
                    },
                    Err(_) => {
                        return Err(field_error("ListSecretsResponse", "nextPageToken"));
                    },
                }
                }
            } else if str_eq(key.as_str(), "totalSize") {
                if let Json::Null = val {
                } else {
                    match jv_i32(val) {
                    Ok(x) => {
                        out = crate::model::ListSecretsResponse { total_size: x, ..out };
                    },
                    Err(_) => {
                        return Err(field_error("ListSecretsResponse", "totalSize"));
                    },
                }
                }
            }
        i += 1;
    }
    proof {
        assert(es0.skip(i as int).len() == 0);
    }
    Ok(out)
}

/// Law: a list-secrets response survives the wire: decoding its encoding gives back the
/// same value, field for field.
pub proof fn lemma_list_secrets_response_round_trip(v: crate::model::ListSecretsResponseView)
    requires
        v.wf(),
        list_secrets_response_text_facts(v),
    ensures
        dec_list_secrets_response(enc_list_secrets_response(v)) == Some(v),
{
    reveal_strlit("secrets");
    reveal_strlit("nextPageToken");
    reveal_strlit("totalSize");
    assert(("secrets"@).len() == 7);
    assert(("nextPageToken"@).len() == 13);
    assert(("totalSize"@).len() == 9);
    assert("secrets"@ != "nextPageToken"@);
    assert("secrets"@ != "totalSize"@);
    assert("nextPageToken"@ != "totalSize"@);
    let a0 = crate::model::ListSecretsResponseView::default_v();
    let s1 = seq![("secrets"@, JsonView::Arr(Seq::new(v.secrets.len(), |i: int| enc_secret(v.secrets[i]))))];
    let s2 = seq![("nextPageToken"@, JsonView::Str(v.next_page_token))];
    let s3 = seq![("totalSize"@, JsonView::Int(v.total_size as i64))];
    let t3 = s3;
    let t2 = s2 + t3;
    let t1 = s1 + t2;
    assert(enc_list_secrets_response_entries(v) =~= t1);
    let a1 = crate::model::ListSecretsResponseView { secrets: v.secrets, ..a0 };
    let a2 = crate::model::ListSecretsResponseView { next_page_token: v.next_page_token, ..a1 };
    let a3 = crate::model::ListSecretsResponseView { total_size: v.total_size, ..a2 };
    {
        lemma_secret_arr_round_trip(v.secrets);
        assert(dec_list_secrets_response_field(a0, "secrets"@, JsonView::Arr(Seq::new(v.secrets.len(), |i: int| enc_secret(v.secrets[i])))) == Some(a1));
        assert(s1.len() == 1);
        assert(s1.skip(1).len() == 0);
        assert(dec_list_secrets_response_entries(s1.skip(1), a1) == Some(a1));
        assert(dec_list_secrets_response_entries(s1, a0) == Some(a1));
    }
    {
        assert(dec_list_secrets_response_field(a1, "nextPageToken"@, JsonView::Str(v.next_page_token)) == Some(a2));
        assert(s2.len() == 1);
        assert(s2.skip(1).len() == 0);
        assert(dec_list_secrets_response_entries(s2.skip(1), a2) == Some(a2));
        assert(dec_list_secrets_response_entries(s2, a1) == Some(a2));
    }
    {
        assert(dec_list_secrets_response_field(a2, "totalSize"@, JsonView::Int(v.total_size as i64)) == Some(a3));
        assert(s3.len() == 1);
        assert(s3.skip(1).len() == 0);
        assert(dec_list_secrets_response_entries(s3.skip(1), a3) == Some(a3));
        assert(dec_list_secrets_response_entries(s3, a2) == Some(a3));
    }
    lemma_dec_list_secrets_response_entries_concat(s1, t2, a0);
    assert(dec_list_secrets_response_entries(t1, a0) == dec_list_secrets_response_entries(t2, a1));
    lemma_dec_list_secrets_response_entries_concat(s2, t3, a1);
    assert(dec_list_secrets_response_entries(t2, a1) == dec_list_secrets_response_entries(t3, a2));
    assert(dec_list_secrets_response_entries(t3, a2) == Some(a3));
    assert(a3 == v);
    assert(dec_list_secrets_response_entries(enc_list_secrets_response_entries(v), a0) == Some(v));
}

/// The wire entries of a create-secret request, in schema order.
pub open spec fn enc_create_secret_request_entries(v: crate::model::CreateSecretRequestView) -> Seq<(Seq<char>, JsonView)> {
    seq![("parent"@, JsonView::Str(v.parent))]
        + seq![("secretId"@, JsonView::Str(v.secret_id))]
        + (match v.secret { Some(x) => seq![("secret"@, enc_secret(x))], None => Seq::empty() })
}

/// The wire form of a create-secret request.
pub open spec fn enc_create_secret_request(v: crate::model::CreateSecretRequestView) -> JsonView {
    JsonView::Obj(enc_create_secret_request_entries(v))
}

/// One decoding step of a create-secret request: a known key fills its field, null
/// counts as absent, an unknown key is skipped.
pub open spec fn dec_create_secret_request_field(acc: crate::model::CreateSecretRequestView, key: Seq<char>, val: JsonView) -> Option<crate::model::CreateSecretRequestView> {
    if key == "parent"@ {
        if val is Null {
            Some(acc)
        } else {
            match field_str(val) {
                Some(s) => Some(crate::model::CreateSecretRequestView { parent: s, ..acc }),
                None => None,
            }
        }
    } else if key == "secretId"@ {
        if val is Null {
            Some(acc)
        } else {
            match field_str(val) {
                Some(s) => Some(crate::model::CreateSecretRequestView { secret_id: s, ..acc }),
                None => None,
            }
        }
    } else if key == "secret"@ {
        if val is Null {
            Some(acc)
        } else {
            match dec_secret(val) {
                Some(x) => Some(crate::model::CreateSecretRequestView { secret: Some(x), ..acc }),
                None => None,
            }
        }
    } else {
        Some(acc)
    }
}

/// Decoding over the entries of a create-secret request, entry by entry.
pub open spec fn dec_create_secret_request_entries(es: Seq<(Seq<char>, JsonView)>, acc: crate::model::CreateSecretRequestView) -> Option<crate::model::CreateSecretRequestView>
    decreases es.len(),
{
    if es.len() == 0 {
        Some(acc)
    } else {
        match dec_create_secret_request_field(acc, es[0].0, es[0].1) {
            Some(a2) => dec_create_secret_request_entries(es.skip(1), a2),
            None => None,
        }
    }
}

/// The value of a create-secret request a wire value denotes, starting from the default.
pub open spec fn dec_create_secret_request(j: JsonView) -> Option<crate::model::CreateSecretRequestView> {
    match j {
        JsonView::Obj(es) => dec_create_secret_request_entries(es, crate::model::CreateSecretRequestView::default_v()),
        _ => None,
    }
}

/// The facts about the trusted timestamp text conversion that the
/// round-trip law needs for this record: each contained timestamp's text
/// parses back to the same value. They are the contract of the rendering
/// wrapper, so every encoded record satisfies them.
pub open spec fn create_secret_request_text_facts(v: crate::model::CreateSecretRequestView) -> bool {
    &&& (match v.secret { Some(x) => secret_text_facts(x), None => true })
}

/// Decoding distributes over concatenated entry lists.
proof fn lemma_dec_create_secret_request_entries_concat(
    a: Seq<(Seq<char>, JsonView)>,
    b: Seq<(Seq<char>, JsonView)>,
    acc: crate::model::CreateSecretRequestView,
)
    ensures
        dec_create_secret_request_entries(a + b, acc) == match dec_create_secret_request_entries(a, acc) {
            Some(m) => dec_create_secret_request_entries(b, m),
            None => None::<crate::model::CreateSecretRequestView>,
        },
    decreases a.len(),
{
    if a.len() == 0 {
        assert(a + b =~= b);
    } else {
        assert((a + b)[0] == a[0]);
        match dec_create_secret_request_field(acc, a[0].0, a[0].1) {
            Some(m) => {
                lemma_dec_create_secret_request_entries_concat(a.skip(1), b, m);
                assert((a + b).skip(1) =~= a.skip(1) + b);
            },
            None => {},
        }
    }
}

/// Encodes a create-secret request in its wire form.
pub fn encode_create_secret_request(v: &crate::model::CreateSecretRequest) -> (r: Json)
    requires
        v@.wf(),
    ensures
        r@ == enc_create_secret_request(v@),
        create_secret_request_text_facts(v@),
{
    let ghost vv = v@;
    let mut es: Vec<(String, Json)> = Vec::new();
    let ghost mut expect: Seq<(Seq<char>, JsonView)> = Seq::empty();
    proof {
        assert(entries_view(es) =~= expect);
    }
        es.push(("parent".to_owned(), Json::Str(v.parent.clone())));
        proof {
            expect = expect + seq![("parent"@, JsonView::Str(vv.parent))];
            assert(entries_view(es) =~= expect);
        }
        es.push(("secretId".to_owned(), Json::Str(v.secret_id.clone())));
        proof {
            expect = expect + seq![("secretId"@, JsonView::Str(vv.secret_id))];
            assert(entries_view(es) =~= expect);
        }
        match &v.secret {
            Some(x) => {
                es.push(("secret".to_owned(), encode_secret(x)));
            },
            None => {},
        }
        proof {
            expect = expect + (match vv.secret { Some(x) => seq![("secret"@, enc_secret(x))], None => Seq::empty() });
            assert(entries_view(es) =~= expect);
        }
    let r = Json::Obj(es);
    proof {
        lemma_obj_view(r->Obj_0);
        assert(expect =~= enc_create_secret_request_entries(vv));
    }
    r
}

/// Decodes a create-secret request from its wire form: unknown keys are skipped, null
/// values and missing fields leave the default, and a value of the wrong
/// shape for its key is a serialization error naming the field.
pub fn decode_create_secret_request(v: &Json) -> (r: Result<crate::model::CreateSecretRequest, Error>)
    ensures
        match r {
            Ok(out) => dec_create_secret_request(v@) == Some(out@),
            Err(e) => dec_create_secret_request(v@) is None && e.kind == ErrorKind::Serde,
        },
{
    let es = match v {
        Json::Obj(es) => es,
        _ => {
            return Err(shape_error("CreateSecretRequest"));
        },
    };
    let ghost es0 = entries_view(*es);
    proof {
        lemma_obj_view(*es);
    }
    let mut out = crate::model::CreateSecretRequest::default();
    let mut i: usize = 0;
    proof {
        assert(es0.skip(0) =~= es0);
    }
    while i < es.len()
        invariant
            i <= es@.len(),
            es0 == entries_view(*es),
            es0.len() == es@.len(),
            v@ == JsonView::Obj(es0),
            dec_create_secret_request_entries(es0, crate::model::CreateSecretRequestView::default_v()) == dec_create_secret_request_entries(
                es0.skip(i as int),
                out@,
            ),
        decreases es@.len() - i,
    {
        let ghost pre = es0.skip(i as int);
        proof {
            assert(pre[0] == es0[i as int]);
            assert(es0[i as int] == (es@[i as int].0@, es@[i as int].1@));
            assert(pre.skip(1) =~= es0.skip(i as int + 1));
        }
        let key = &es[i].0;
        let val = &es[i].1;
        if str_eq(key.as_str(), "parent") {
                if let Json::Null = val {
                } else {
                    match jv_str(val) {
                    Ok(x) => {
                        out = crate::model::CreateSecretRequest { parent: x, ..out };
                    },
                    Err(_) => {
                        return Err(field_error("CreateSecretRequest", "parent"));
                    },
                }
                }
            } else if str_eq(key.as_str(), "secretId") {
                if let Json::Null = val {
                } else {
                    match jv_str(val) {
                    Ok(x) => {
                        out = crate::model::CreateSecretRequest { secret_id: x, ..out };
                    },
                    Err(_) => {
                        return Err(field_error("CreateSecretRequest", "secretId"));
                    },
                }
                }
            } else if str_eq(key.as_str(), "secret") {
                if let Json::Null = val {
                } else {
                    match decode_secret(val) {
                    Ok(x) => {
                        out = crate::model::CreateSecretRequest { secret: Some(x), ..out };
                    },
                    Err(e) => {
                        return Err(e);
                    },
                }
                }
            }
        i += 1;
    }
    proof {
        assert(es0.skip(i as int).len() == 0);
    }
    Ok(out)
}

/// Law: a create-secret request survives the wire: decoding its encoding gives back the
/// same value, field for field.
pub proof fn lemma_create_secret_request_round_trip(v: crate::model::CreateSecretRequestView)
    requires
        v.wf(),
        create_secret_request_text_facts(v),
    ensures
        dec_create_secret_request(enc_create_secret_request(v)) == Some(v),
{
    reveal_strlit("parent");
    reveal_strlit("secretId");
    reveal_strlit("secret");
    assert(("parent"@).len() == 6);
    assert(("secretId"@).len() == 8);
    assert(("secret"@).len() == 6);
    assert("parent"@ != "secretId"@);
    assert(("parent"@)[0] == 'p' && ("secret"@)[0] == 's');
    assert("parent"@ != "secret"@);
    assert("secretId"@ != "secret"@);
    let a0 = crate::model::CreateSecretRequestView::default_v();
    let s1 = seq![("parent"@, JsonView::Str(v.parent))];
    let s2 = seq![("secretId"@, JsonView::Str(v.secret_id))];
    let s3 = (match v.secret { Some(x) => seq![("secret"@, enc_secret(x))], None => Seq::empty() });
    let t3 = s3;
    let t2 = s2 + t3;
    let t1 = s1 + t2;
    assert(enc_create_secret_request_entries(v) =~= t1);
    let a1 = crate::model::CreateSecretRequestView { parent: v.parent, ..a0 };
    let a2 = crate::model::CreateSecretRequestView { secret_id: v.secret_id, ..a1 };
    let a3 = crate::model::CreateSecretRequestView { secret: v.secret, ..a2 };
    {
        assert(dec_create_secret_request_field(a0, "parent"@, JsonView::Str(v.parent)) == Some(a1));
        assert(s1.len() == 1);
        assert(s1.skip(1).len() == 0);
        assert(dec_create_secret_request_entries(s1.skip(1), a1) == Some(a1));
        assert(dec_create_secret_request_entries(s1, a0) == Some(a1));
    }
    {
        assert(dec_create_secret_request_field(a1, "secretId"@, JsonView::Str(v.secret_id)) == Some(a2));
        assert(s2.len() == 1);
        assert(s2.skip(1).len() == 0);
        assert(dec_create_secret_request_entries(s2.skip(1), a2) == Some(a2));
        assert(dec_create_secret_request_entries(s2, a1) == Some(a2));
    }
    match v.secret {
        Some(x) => {
            lemma_secret_round_trip(x);
            assert(dec_create_secret_request_field(a2, "secret"@, enc_secret(x)) == Some(a3));
        assert(s3.len() == 1);
        assert(s3.skip(1).len() == 0);
        assert(dec_create_secret_request_entries(s3.skip(1), a3) == Some(a3));
        assert(dec_create_secret_request_entries(s3, a2) == Some(a3));
        },
        None => {
            assert(s3.len() == 0);
            assert(a3 == a2);
            assert(dec_create_secret_request_entries(s3, a2) == Some(a3));
        },
    }
    lemma_dec_create_secret_request_entries_concat(s1, t2, a0);
    assert(dec_create_secret_request_entries(t1, a0) == dec_create_secret_request_entries(t2, a1));
    lemma_dec_create_secret_request_entries_concat(s2, t3, a1);
    assert(dec_create_secret_request_entries(t2, a1) == dec_create_secret_request_entries(t3, a2));
    assert(dec_create_secret_request_entries(t3, a2) == Some(a3));
    assert(a3 == v);
    assert(dec_create_secret_request_entries(enc_create_secret_request_entries(v), a0) == Some(v));
}

/// The wire entries of an add-secret-version request, in schema order.
pub open spec fn enc_add_secret_version_request_entries(v: crate::model::AddSecretVersionRequestView) -> Seq<(Seq<char>, JsonView)> {
    seq![("parent"@, JsonView::Str(v.parent))]
        + (match v.payload { Some(x) => seq![("payload"@, enc_secret_payload(x))], None => Seq::empty() })
}

/// The wire form of an add-secret-version request.
pub open spec fn enc_add_secret_version_request(v: crate::model::AddSecretVersionRequestView) -> JsonView {
    JsonView::Obj(enc_add_secret_version_request_entries(v))
}

/// One decoding step of an add-secret-version request: a known key fills its field, null
/// counts as absent, an unknown key is skipped.
pub open spec fn dec_add_secret_version_request_field(acc: crate::model::AddSecretVersionRequestView, key: Seq<char>, val: JsonView) -> Option<crate::model::AddSecretVersionRequestView> {
    if key == "parent"@ {
        if val is Null {
            Some(acc)
        } else {
            match field_str(val) {
                Some(s) => Some(crate::model::AddSecretVersionRequestView { parent: s, ..acc }),
                None => None,
            }
        }
    } else if key == "payload"@ {
        if val is Null {
            Some(acc)
        } else {
            match dec_secret_payload(val) {
                Some(x) => Some(crate::model::AddSecretVersionRequestView { payload: Some(x), ..acc }),
                None => None,
            }
        }
    } else {
        Some(acc)
    }
}

/// Decoding over the entries of an add-secret-version request, entry by entry.
pub open spec fn dec_add_secret_version_request_entries(es: Seq<(Seq<char>, JsonView)>, acc: crate::model::AddSecretVersionRequestView) -> Option<crate::model::AddSecretVersionRequestView>
    decreases es.len(),
{
    if es.len() == 0 {
        Some(acc)
    } else {
        match dec_add_secret_version_request_field(acc, es[0].0, es[0].1) {
            Some(a2) => dec_add_secret_version_request_entries(es.skip(1), a2),
            None => None,
        }
    }
}

/// The value of an add-secret-version request a wire value denotes, starting from the default.
pub open spec fn dec_add_secret_version_request(j: JsonView) -> Option<crate::model::AddSecretVersionRequestView> {
    match j {
        JsonView::Obj(es) => dec_add_secret_version_request_entries(es, crate::model::AddSecretVersionRequestView::default_v()),
        _ => None,
    }
}

/// Decoding distributes over concatenated entry lists.
proof fn lemma_dec_add_secret_version_request_entries_concat(
    a: Seq<(Seq<char>, JsonView)>,
    b: Seq<(Seq<char>, JsonView)>,
    acc: crate::model::AddSecretVersionRequestView,
)
    ensures
        dec_add_secret_version_request_entries(a + b, acc) == match dec_add_secret_version_request_entries(a, acc) {
            Some(m) => dec_add_secret_version_request_entries(b, m),
            None => None::<crate::model::AddSecretVersionRequestView>,
        },
    decreases a.len(),
{
    if a.len() == 0 {
        assert(a + b =~= b);
    } else {
        assert((a + b)[0] == a[0]);
        match dec_add_secret_version_request_field(acc, a[0].0, a[0].1) {
            Some(m) => {
                lemma_dec_add_secret_version_request_entries_concat(a.skip(1), b, m);
                assert((a + b).skip(1) =~= a.skip(1) + b);
            },
            None => {},
        }
    }
}

/// Encodes an add-secret-version request in its wire form.
pub fn encode_add_secret_version_request(v: &crate::model::AddSecretVersionRequest) -> (r: Json)
    requires
        v@.wf(),
    ensures
        r@ == enc_add_secret_version_request(v@),
{
    let ghost vv = v@;
    let mut es: Vec<(String, Json)> = Vec::new();
    let ghost mut expect: Seq<(Seq<char>, JsonView)> = Seq::empty();
    proof {
        assert(entries_view(es) =~= expect);
    }
        es.push(("parent".to_owned(), Json::Str(v.parent.clone())));
        proof {
            expect = expect + seq![("parent"@, JsonView::Str(vv.parent))];
            assert(entries_view(es) =~= expect);
        }
        match &v.payload {
            Some(x) => {
                es.push(("payload".to_owned(), encode_secret_payload(x)));
            },
            None => {},
        }
        proof {
            expect = expect + (match vv.payload { Some(x) => seq![("payload"@, enc_secret_payload(x))], None => Seq::empty() });
            assert(entries_view(es) =~= expect);
        }
    let r = Json::Obj(es);
    proof {
        lemma_obj_view(r->Obj_0);
        assert(expect =~= enc_add_secret_version_request_entries(vv));
    }
    r
}

/// Decodes an add-secret-version request from its wire form: unknown keys are skipped, null
/// values and missing fields leave the default, and a value of the wrong
/// shape for its key is a serialization error naming the field.
pub fn decode_add_secret_version_request(v: &Json) -> (r: Result<crate::model::AddSecretVersionRequest, Error>)
    ensures
        match r {
            Ok(out) => dec_add_secret_version_request(v@) == Some(out@),
            Err(e) => dec_add_secret_version_request(v@) is None && e.kind == ErrorKind::Serde,
        },
{
    let es = match v {
        Json::Obj(es) => es,
        _ => {
            return Err(shape_error("AddSecretVersionRequest"));
        },
    };
    let ghost es0 = entries_view(*es);
    proof {
        lemma_obj_view(*es);
    }
    let mut out = crate::model::AddSecretVersionRequest::default();
    let mut i: usize = 0;
    proof {
        assert(es0.skip(0) =~= es0);
    }
    while i < es.len()
        invariant
            i <= es@.len(),
            es0 == entries_view(*es),
            es0.len() == es@.len(),
            v@ == JsonView::Obj(es0),
            dec_add_secret_version_request_entries(es0, crate::model::AddSecretVersionRequestView::default_v()) == dec_add_secret_version_request_entries(
                es0.skip(i as int),
                out@,
            ),
        decreases es@.len() - i,
    {
        let ghost pre = es0.skip(i as int);
        proof {
            assert(pre[0] == es0[i as int]);
            assert(es0[i as int] == (es@[i as int].0@, es@[i as int].1@));
            assert(pre.skip(1) =~= es0.skip(i as int + 1));
        }
        let key = &es[i].0;
        let val = &es[i].1;
        if str_eq(key.as_str(), "parent") {
                if let Json::Null = val {
                } else {
                    match jv_str(val) {
                    Ok(x) => {
                        out = crate::model::AddSecretVersionRequest { parent: x, ..out };
                    },
                    Err(_) => {
                        return Err(field_error("AddSecretVersionRequest", "parent"));
                    },
                }
                }
            } else if str_eq(key.as_str(), "payload") {
                if let Json::Null = val {
                } else {
                    match decode_secret_payload(val) {
                    Ok(x) => {
                        out = crate::model::AddSecretVersionRequest { payload: Some(x), ..out };
                    },
                    Err(e) => {
                        return Err(e);
                    },
                }
                }
            }
        i += 1;
    }
    proof {
        assert(es0.skip(i as int).len() == 0);
    }
    Ok(out)
}

/// Law: an add-secret-version request survives the wire: decoding its encoding gives back the
/// same value, field for field.
pub proof fn lemma_add_secret_version_request_round_trip(v: crate::model::AddSecretVersionRequestView)
    requires
        v.wf(),
    ensures
        dec_add_secret_version_request(enc_add_secret_version_request(v)) == Some(v),
{
    reveal_strlit("parent");
    reveal_strlit("payload");
    assert(("parent"@).len() == 6);
    assert(("payload"@).len() == 7);
    assert("parent"@ != "payload"@);
    let a0 = crate::model::AddSecretVersionRequestView::default_v();
    let s1 = seq![("parent"@, JsonView::Str(v.parent))];
    let s2 = (match v.payload { Some(x) => seq![("payload"@, enc_secret_payload(x))], None => Seq::empty() });
    let t2 = s2;
    let t1 = s1 + t2;
    assert(enc_add_secret_version_request_entries(v) =~= t1);
    let a1 = crate::model::AddSecretVersionRequestView { parent: v.parent, ..a0 };
    let a2 = crate::model::AddSecretVersionRequestView { payload: v.payload, ..a1 };
    {
        assert(dec_add_secret_version_request_field(a0, "parent"@, JsonView::Str(v.parent)) == Some(a1));
        assert(s1.len() == 1);
        assert(s1.skip(1).len() == 0);
        assert(dec_add_secret_version_request_entries(s1.skip(1), a1) == Some(a1));
        assert(dec_add_secret_version_request_entries(s1, a0) == Some(a1));
    }
    match v.payload {
        Some(x) => {
            lemma_secret_payload_round_trip(x);
            assert(dec_add_secret_version_request_field(a1, "payload"@, enc_secret_payload(x)) == Some(a2));
        assert(s2.len() == 1);
        assert(s2.skip(1).len() == 0);
        assert(dec_add_secret_version_request_entries(s2.skip(1), a2) == Some(a2));
        assert(dec_add_secret_version_request_entries(s2, a1) == Some(a2));
        },
        None => {
            assert(s2.len() == 0);
            assert(a2 == a1);
            assert(dec_add_secret_version_request_entries(s2, a1) == Some(a2));
        },
    }
    lemma_dec_add_secret_version_request_entries_concat(s1, t2, a0);
    assert(dec_add_secret_version_request_entries(t1, a0) == dec_add_secret_version_request_entries(t2, a1));
    assert(dec_add_secret_version_request_entries(t2, a1) == Some(a2));
    assert(a2 == v);
    assert(dec_add_secret_version_request_entries(enc_add_secret_version_request_entries(v), a0) == Some(v));
}

/// The wire entries of a get-secret request, in schema order.
pub open spec fn enc_get_secret_request_entries(v: crate::model::GetSecretRequestView) -> Seq<(Seq<char>, JsonView)> {
    seq![("name"@, JsonView::Str(v.name))]
}

/// The wire form of a get-secret request.
pub open spec fn enc_get_secret_request(v: crate::model::GetSecretRequestView) -> JsonView {
    JsonView::Obj(enc_get_secret_request_entries(v))
}

/// One decoding step of a get-secret request: a known key fills its field, null
/// counts as absent, an unknown key is skipped.
pub open spec fn dec_get_secret_request_field(acc: crate::model::GetSecretRequestView, key: Seq<char>, val: JsonView) -> Option<crate::model::GetSecretRequestView> {
    if key == "name"@ {
        if val is Null {
            Some(acc)
        } else {
            match field_str(val) {
                Some(s) => Some(crate::model::GetSecretRequestView { name: s, ..acc }),
                None => None,
            }
        }
    } else {
        Some(acc)
    }
}

/// Decoding over the entries of a get-secret request, entry by entry.
pub open spec fn dec_get_secret_request_entries(es: Seq<(Seq<char>, JsonView)>, acc: crate::model::GetSecretRequestView) -> Option<crate::model::GetSecretRequestView>
    decreases es.len(),
{
    if es.len() == 0 {
        Some(acc)
    } else {
        match dec_get_secret_request_field(acc, es[0].0, es[0].1) {
            Some(a2) => dec_get_secret_request_entries(es.skip(1), a2),
            None => None,
        }
    }
}

/// The value of a get-secret request a wire value denotes, starting from the default.
pub open spec fn dec_get_secret_request(j: JsonView) -> Option<crate::model::GetSecretRequestView> {
    match j {
        JsonView::Obj(es) => dec_get_secret_request_entries(es, crate::model::GetSecretRequestView::default_v()),
        _ => None,
    }
}

/// Decoding distributes over concatenated entry lists.
proof fn lemma_dec_get_secret_request_entries_concat(
    a: Seq<(Seq<char>, JsonView)>,
    b: Seq<(Seq<char>, JsonView)>,
    acc: crate::model::GetSecretRequestView,
)
    ensures
        dec_get_secret_request_entries(a + b, acc) == match dec_get_secret_request_entries(a, acc) {
            Some(m) => dec_get_secret_request_entries(b, m),
            None => None::<crate::model::GetSecretRequestView>,
        },
    decreases a.len(),
{
    if a.len() == 0 {
        assert(a + b =~= b);
    } else {
        assert((a + b)[0] == a[0]);
        match dec_get_secret_request_field(acc, a[0].0, a[0].1) {
            Some(m) => {
                lemma_dec_get_secret_request_entries_concat(a.skip(1), b, m);
                assert((a + b).skip(1) =~= a.skip(1) + b);
            },
            None => {},
        }
    }
}

/// Encodes a get-secret request in its wire form.
pub fn encode_get_secret_request(v: &crate::model::GetSecretRequest) -> (r: Json)
    requires
        v@.wf(),
    ensures
        r@ == enc_get_secret_request(v@),
{
    let ghost vv = v@;
    let mut es: Vec<(String, Json)> = Vec::new();
    let ghost mut expect: Seq<(Seq<char>, JsonView)> = Seq::empty();
    proof {
        assert(entries_view(es) =~= expect);
    }
        es.push(("name".to_owned(), Json::Str(v.name.clone())));
        proof {
            expect = expect + seq![("name"@, JsonView::Str(vv.name))];
            assert(entries_view(es) =~= expect);
        }
    let r = Json::Obj(es);
    proof {
        lemma_obj_view(r->Obj_0);
        assert(expect =~= enc_get_secret_request_entries(vv));
    }
    r
}

/// Decodes a get-secret request from its wire form: unknown keys are skipped, null
/// values and missing fields leave the default, and a value of the wrong
/// shape for its key is a serialization error naming the field.
pub fn decode_get_secret_request(v: &Json) -> (r: Result<crate::model::GetSecretRequest, Error>)
    ensures
        match r {
            Ok(out) => dec_get_secret_request(v@) == Some(out@),
            Err(e) => dec_get_secret_request(v@) is None && e.kind == ErrorKind::Serde,
        },
{
    let es = match v {
        Json::Obj(es) => es,
        _ => {
            return Err(shape_error("GetSecretRequest"));
        },
    };
    let ghost es0 = entries_view(*es);
    proof {
        lemma_obj_view(*es);
    }
    let mut out = crate::model::GetSecretRequest::default();
    let mut i: usize = 0;
    proof {
        assert(es0.skip(0) =~= es0);
    }
    while i < es.len()
        invariant
            i <= es@.len(),
            es0 == entries_view(*es),
            es0.len() == es@.len(),
            v@ == JsonView::Obj(es0),
            dec_get_secret_request_entries(es0, crate::model::GetSecretRequestView::default_v()) == dec_get_secret_request_entries(
                es0.skip(i as int),
                out@,
            ),
        decreases es@.len() - i,
    {
        let ghost pre = es0.skip(i as int);
        proof {
            assert(pre[0] == es0[i as int]);
            assert(es0[i as int] == (es@[i as int].0@, es@[i as int].1@));
            assert(pre.skip(1) =~= es0.skip(i as int + 1));
        }
        let key = &es[i].0;
        let val = &es[i].1;
        if str_eq(key.as_str(), "name") {
                if let Json::Null = val {
                } else {
                    match jv_str(val) {
                    Ok(x) => {
                        out = crate::model::GetSecretRequest { name: x, ..out };
                    },
                    Err(_) => {
                        return Err(field_error("GetSecretRequest", "name"));
                    },
                }
                }
            }
        i += 1;
    }
    proof {
        assert(es0.skip(i as int).len() == 0);
    }
    Ok(out)
}

/// Law: a get-secret request survives the wire: decoding its encoding gives back the
/// same value, field for field.
pub proof fn lemma_get_secret_request_round_trip(v: crate::model::GetSecretRequestView)
    requires
        v.wf(),
    ensures
        dec_get_secret_request(enc_get_secret_request(v)) == Some(v),
{
    reveal_strlit("name");
    assert(("name"@).len() == 4);
    let a0 = crate::model::GetSecretRequestView::default_v();
    let s1 = seq![("name"@, JsonView::Str(v.name))];
    let t1 = s1;
    assert(enc_get_secret_request_entries(v) =~= t1);
    let a1 = crate::model::GetSecretRequestView { name: v.name, ..a0 };
    {
        assert(dec_get_secret_request_field(a0, "name"@, JsonView::Str(v.name)) == Some(a1));
        assert(s1.len() == 1);
        assert(s1.skip(1).len() == 0);
        assert(dec_get_secret_request_entries(s1.skip(1), a1) == Some(a1));
        assert(dec_get_secret_request_entries(s1, a0) == Some(a1));
    }

    assert(dec_get_secret_request_entries(t1, a0) == Some(a1));
    assert(a1 == v);
    assert(dec_get_secret_request_entries(enc_get_secret_request_entries(v), a0) == Some(v));
}

/// The wire entries of a list-secret-versions request, in schema order.
pub open spec fn enc_list_secret_versions_request_entries(v: crate::model::ListSecretVersionsRequestView) -> Seq<(Seq<char>, JsonView)> {
    seq![("parent"@, JsonView::Str(v.parent))]
        + seq![("pageSize"@, JsonView::Int(v.page_size as i64))]
        + seq![("pageToken"@, JsonView::Str(v.page_token))]
        + seq![("filter"@, JsonView::Str(v.filter))]
}

/// The wire form of a list-secret-versions request.
pub open spec fn enc_list_secret_versions_request(v: crate::model::ListSecretVersionsRequestView) -> JsonView {
    JsonView::Obj(enc_list_secret_versions_request_entries(v))
}

/// One decoding step of a list-secret-versions request: a known key fills its field, null
/// counts as absent, an unknown key is skipped.
pub open spec fn dec_list_secret_versions_request_field(acc: crate::model::ListSecretVersionsRequestView, key: Seq<char>, val: JsonView) -> Option<crate::model::ListSecretVersionsRequestView> {
    if key == "parent"@ {
        if val is Null {
            Some(acc)
        } else {
            match field_str(val) {
                Some(s) => Some(crate::model::ListSecretVersionsRequestView { parent: s, ..acc }),
                None => None,
            }
        }
    } else if key == "pageSize"@ {
        if val is Null {
            Some(acc)
        } else {
            match field_i32(val) {
                Some(n) => Some(crate::model::ListSecretVersionsRequestView { page_size: n, ..acc }),
                None => None,
            }
        }
    } else if key == "pageToken"@ {
        if val is Null {
            Some(acc)
        } else {
            match field_str(val) {
                Some(s) => Some(crate::model::ListSecretVersionsRequestView { page_token: s, ..acc }),
                None => None,
            }
        }
    } else if key == "filter"@ {
        if val is Null {
            Some(acc)
        } else {
            match field_str(val) {
                Some(s) => Some(crate::model::ListSecretVersionsRequestView { filter: s, ..acc }),
                None => None,
            }
        }
    } else {
        Some(acc)
    }
}

/// Decoding over the entries of a list-secret-versions request, entry by entry.
pub open spec fn dec_list_secret_versions_request_entries(es: Seq<(Seq<char>, JsonView)>, acc: crate::model::ListSecretVersionsRequestView) -> Option<crate::model::ListSecretVersionsRequestView>
    decreases es.len(),
{
    if es.len() == 0 {
        Some(acc)
    } else {
        match dec_list_secret_versions_request_field(acc, es[0].0, es[0].1) {
            Some(a2) => dec_list_secret_versions_request_entries(es.skip(1), a2),
            None => None,
        }
    }
}

/// The value of a list-secret-versions request a wire value denotes, starting from the default.
pub open spec fn dec_list_secret_versions_request(j: JsonView) -> Option<crate::model::ListSecretVersionsRequestView> {
    match j {
        JsonView::Obj(es) => dec_list_secret_versions_request_entries(es, crate::model::ListSecretVersionsRequestView::default_v()),
        _ => None,
    }
}

/// Decoding distributes over concatenated entry lists.
proof fn lemma_dec_list_secret_versions_request_entries_concat(
    a: Seq<(Seq<char>, JsonView)>,
    b: Seq<(Seq<char>, JsonView)>,
    acc: crate::model::ListSecretVersionsRequestView,
)
    ensures
        dec_list_secret_versions_request_entries(a + b, acc) == match dec_list_secret_versions_request_entries(a, acc) {
            Some(m) => dec_list_secret_versions_request_entries(b, m),
            None => None::<crate::model::ListSecretVersionsRequestView>,
        },
    decreases a.len(),
{
    if a.len() == 0 {
        assert(a + b =~= b);
    } else {
        assert((a + b)[0] == a[0]);
        match dec_list_secret_versions_request_field(acc, a[0].0, a[0].1) {
            Some(m) => {
                lemma_dec_list_secret_versions_request_entries_concat(a.skip(1), b, m);
                assert((a + b).skip(1) =~= a.skip(1) + b);
            },
            None => {},
        }
    }
}

/// Encodes a list-secret-versions request in its wire form.
pub fn encode_list_secret_versions_request(v: &crate::model::ListSecretVersionsRequest) -> (r: Json)
    requires
        v@.wf(),
    ensures
        r@ == enc_list_secret_versions_request(v@),
{
    let ghost vv = v@;
    let mut es: Vec<(String, Json)> = Vec::new();
    let ghost mut expect: Seq<(Seq<char>, JsonView)> = Seq::empty();
    proof {
        assert(entries_view(es) =~= expect);
    }
        es.push(("parent".to_owned(), Json::Str(v.parent.clone())));
        proof {
            expect = expect + seq![("parent"@, JsonView::Str(vv.parent))];
            assert(entries_view(es) =~= expect);
        }
        es.push(("pageSize".to_owned(), Json::Int(v.page_size as i64)));
        proof {
            expect = expect + seq![("pageSize"@, JsonView::Int(vv.page_size as i64))];
            assert(entries_view(es) =~= expect);
        }
        es.push(("pageToken".to_owned(), Json::Str(v.page_token.clone())));
        proof {
            expect = expect + seq![("pageToken"@, JsonView::Str(vv.page_token))];
            assert(entries_view(es) =~= expect);
        }
        es.push(("filter".to_owned(), Json::Str(v.filter.clone())));
        proof {
            expect = expect + seq![("filter"@, JsonView::Str(vv.filter))];
            assert(entries_view(es) =~= expect);
        }
    let r = Json::Obj(es);
    proof {
        lemma_obj_view(r->Obj_0);
        assert(expect =~= enc_list_secret_versions_request_entries(vv));
    }
    r
}

/// Decodes a list-secret-versions request from its wire form: unknown keys are skipped, null
/// values and missing fields leave the default, and a value of the wrong
/// shape for its key is a serialization error naming the field.
pub fn decode_list_secret_versions_request(v: &Json) -> (r: Result<crate::model::ListSecretVersionsRequest, Error>)
    ensures
        match r {
            Ok(out) => dec_list_secret_versions_request(v@) == Some(out@),
            Err(e) => dec_list_secret_versions_request(v@) is None && e.kind == ErrorKind::Serde,
        },
{
    let es = match v {
        Json::Obj(es) => es,
        _ => {
            return Err(shape_error("ListSecretVersionsRequest"));
        },
    };
    let ghost es0 = entries_view(*es);
    proof {
        lemma_obj_view(*es);
    }
    let mut out = crate::model::ListSecretVersionsRequest::default();
    let mut i: usize = 0;
    proof {
        assert(es0.skip(0) =~= es0);
    }
    while i < es.len()
        invariant
            i <= es@.len(),
            es0 == entries_view(*es),
            es0.len() == es@.len(),
            v@ == JsonView::Obj(es0),
            dec_list_secret_versions_request_entries(es0, crate::model::ListSecretVersionsRequestView::default_v()) == dec_list_secret_versions_request_entries(
                es0.skip(i as int),
                out@,
            ),
        decreases es@.len() - i,
    {
        let ghost pre = es0.skip(i as int);
        proof {
            assert(pre[0] == es0[i as int]);
            assert(es0[i as int] == (es@[i as int].0@, es@[i as int].1@));
            assert(pre.skip(1) =~= es0.skip(i as int + 1));
        }
        let key = &es[i].0;
        let val = &es[i].1;
        if str_eq(key.as_str(), "parent") {
                if let Json::Null = val {
                } else {
                    match jv_str(val) {
                    Ok(x) => {
                        out = crate::model::ListSecretVersionsRequest { parent: x, ..out };
                    },
                    Err(_) => {
                        return Err(field_error("ListSecretVersionsRequest", "parent"));
                    },
                }
                }
            } else if str_eq(key.as_str(), "pageSize") {
                if let Json::Null = val {
                } else {
                    match jv_i32(val) {
                    Ok(x) => {
                        out = crate::model::ListSecretVersionsRequest { page_size: x, ..out };
                    },
                    Err(_) => {
                        return Err(field_error("ListSecretVersionsRequest", "pageSize"));
                    },
                }
                }
            } else if str_eq(key.as_str(), "pageToken") {
                if let Json::Null = val {
                } else {
                    match jv_str(val) {
                    Ok(x) => {
                        out = crate::model::ListSecretVersionsRequest { page_token: x, ..out };
                    },
                    Err(_) => {
                        return Err(field_error("ListSecretVersionsRequest", "pageToken"));
                    },
                }
                }
            } else if str_eq(key.as_str(), "filter") {
                if let Json::Null = val {
                } else {
                    match jv_str(val) {
                    Ok(x) => {
                        out = crate::model::ListSecretVersionsRequest { filter: x, ..out };
                    },
                    Err(_) => {
                        return Err(field_error("ListSecretVersionsRequest", "filter"));
                    },
                }
                }
            }
        i += 1;
    }
    proof {
        assert(es0.skip(i as int).len() == 0);
    }
    Ok(out)
}

/// Law: a list-secret-versions request survives the wire: decoding its encoding gives back the
/// same value, field for field.
pub proof fn lemma_list_secret_versions_request_round_trip(v: crate::model::ListSecretVersionsRequestView)
    requires
        v.wf(),
    ensures
        dec_list_secret_versions_request(enc_list_secret_versions_request(v)) == Some(v),
{
    reveal_strlit("parent");
    reveal_strlit("pageSize");
    reveal_strlit("pageToken");
    reveal_strlit("filter");
    assert(("parent"@).len() == 6);
    assert(("pageSize"@).len() == 8);
    assert(("pageToken"@).len() == 9);
    assert(("filter"@).len() == 6);
    assert("parent"@ != "pageSize"@);
    assert("parent"@ != "pageToken"@);
    assert(("parent"@)[0] == 'p' && ("filter"@)[0] == 'f');
    assert("parent"@ != "filter"@);
    assert("pageSize"@ != "pageToken"@);
    assert("pageSize"@ != "filter"@);
    assert("pageToken"@ != "filter"@);
    let a0 = crate::model::ListSecretVersionsRequestView::default_v();
    let s1 = seq![("parent"@, JsonView::Str(v.parent))];
    let s2 = seq![("pageSize"@, JsonView::Int(v.page_size as i64))];
    let s3 = seq![("pageToken"@, JsonView::Str(v.page_token))];
    let s4 = seq![("filter"@, JsonView::Str(v.filter))];
    let t4 = s4;
    let t3 = s3 + t4;
    let t2 = s2 + t3;
    let t1 = s1 + t2;
    assert(enc_list_secret_versions_request_entries(v) =~= t1);
    let a1 = crate::model::ListSecretVersionsRequestView { parent: v.parent, ..a0 };
    let a2 = crate::model::ListSecretVersionsRequestView { page_size: v.page_size, ..a1 };
    let a3 = crate::model::ListSecretVersionsRequestView { page_token: v.page_token, ..a2 };
    let a4 = crate::model::ListSecretVersionsRequestView { filter: v.filter, ..a3 };
    {
        assert(dec_list_secret_versions_request_field(a0, "parent"@, JsonView::Str(v.parent)) == Some(a1));
        assert(s1.len() == 1);
        assert(s1.skip(1).len() == 0);
        assert(dec_list_secret_versions_request_entries(s1.skip(1), a1) == Some(a1));
        assert(dec_list_secret_versions_request_entries(s1, a0) == Some(a1));
    }
    {
        assert(dec_list_secret_versions_request_field(a1, "pageSize"@, JsonView::Int(v.page_size as i64)) == Some(a2));
        assert(s2.len() == 1);
        assert(s2.skip(1).len() == 0);
        assert(dec_list_secret_versions_request_entries(s2.skip(1), a2) == Some(a2));
        assert(dec_list_secret_versions_request_entries(s2, a1) == Some(a2));
    }
    {
        assert(dec_list_secret_versions_request_field(a2, "pageToken"@, JsonView::Str(v.page_token)) == Some(a3));
        assert(s3.len() == 1);
        assert(s3.skip(1).len() == 0);
        assert(dec_list_secret_versions_request_entries(s3.skip(1), a3) == Some(a3));
        assert(dec_list_secret_versions_request_entries(s3, a2) == Some(a3));
    }
    {
        assert(dec_list_secret_versions_request_field(a3, "filter"@, JsonView::Str(v.filter)) == Some(a4));
        assert(s4.len() == 1);
        assert(s4.skip(1).len() == 0);
        assert(dec_list_secret_versions_request_entries(s4.skip(1), a4) == Some(a4));
        assert(dec_list_secret_versions_request_entries(s4, a3) == Some(a4));
    }
    lemma_dec_list_secret_versions_request_entries_concat(s1, t2, a0);
    assert(dec_list_secret_versions_request_entries(t1, a0) == dec_list_secret_versions_request_entries(t2, a1));
    lemma_dec_list_secret_versions_request_entries_concat(s2, t3, a1);
    assert(dec_list_secret_versions_request_entries(t2, a1) == dec_list_secret_versions_request_entries(t3, a2));
    lemma_dec_list_secret_versions_request_entries_concat(s3, t4, a2);
    assert(dec_list_secret_versions_request_entries(t3, a2) == dec_list_secret_versions_request_entries(t4, a3));
    assert(dec_list_secret_versions_request_entries(t4, a3) == Some(a4));
    assert(a4 == v);
    assert(dec_list_secret_versions_request_entries(enc_list_secret_versions_request_entries(v), a0) == Some(v));
}

/// The wire entries of a list-secret-versions response, in schema order.
pub open spec fn enc_list_secret_versions_response_entries(v: crate::model::ListSecretVersionsResponseView) -> Seq<(Seq<char>, JsonView)> {
    seq![("versions"@, JsonView::Arr(Seq::new(v.versions.len(), |i: int| enc_secret_version(v.versions[i]))))]
        + seq![("nextPageToken"@, JsonView::Str(v.next_page_token))]
        + seq![("totalSize"@, JsonView::Int(v.total_size as i64))]
}

/// The wire form of a list-secret-versions response.
pub open spec fn enc_list_secret_versions_response(v: crate::model::ListSecretVersionsResponseView) -> JsonView {
    JsonView::Obj(enc_list_secret_versions_response_entries(v))
}

/// One decoding step of a list-secret-versions response: a known key fills its field, null
/// counts as absent, an unknown key is skipped.
pub open spec fn dec_list_secret_versions_response_field(acc: crate::model::ListSecretVersionsResponseView, key: Seq<char>, val: JsonView) -> Option<crate::model::ListSecretVersionsResponseView> {
    if key == "versions"@ {
        if val is Null {
            Some(acc)
        } else {
            match val {
                JsonView::Arr(items) => match dec_secret_version_arr(items) {
                    Some(xs) => Some(crate::model::ListSecretVersionsResponseView { versions: xs, ..acc }),
                    None => None,
                },
                _ => None,
            }
        }
    } else if key == "nextPageToken"@ {
        if val is Null {
            Some(acc)
        } else {
            match field_str(val) {
                Some(s) => Some(crate::model::ListSecretVersionsResponseView { next_page_token: s, ..acc }),
                None => None,
            }
        }
    } else if key == "totalSize"@ {
        if val is Null {
            Some(acc)
        } else {
            match field_i32(val) {
                Some(n) => Some(crate::model::ListSecretVersionsResponseView { total_size: n, ..acc }),
                None => None,
            }
        }
    } else {
        Some(acc)
    }
}

/// Decoding over the entries of a list-secret-versions response, entry by entry.
pub open spec fn dec_list_secret_versions_response_entries(es: Seq<(Seq<char>, JsonView)>, acc: crate::model::ListSecretVersionsResponseView) -> Option<crate::model::ListSecretVersionsResponseView>
    decreases es.len(),
{
    if es.len() == 0 {
        Some(acc)
    } else {
        match dec_list_secret_versions_response_field(acc, es[0].0, es[0].1) {
            Some(a2) => dec_list_secret_versions_response_entries(es.skip(1), a2),
            None => None,
        }
    }
}

/// The value of a list-secret-versions response a wire value denotes, starting from the default.
pub open spec fn dec_list_secret_versions_response(j: JsonView) -> Option<crate::model::ListSecretVersionsResponseView> {
    match j {
        JsonView::Obj(es) => dec_list_secret_versions_response_entries(es, crate::model::ListSecretVersionsResponseView::default_v()),
        _ => None,
    }
}

/// The facts about the trusted timestamp text conversion that the
/// round-trip law needs for this record: each contained timestamp's text
/// parses back to the same value. They are the contract of the rendering
/// wrapper, so every encoded record satisfies them.
pub open spec fn list_secret_versions_response_text_facts(v: crate::model::ListSecretVersionsResponseView) -> bool {
    &&& (forall|i: int| 0 <= i < v.versions.len() ==> secret_version_text_facts(#[trigger] v.versions[i]))
}

/// Decoding distributes over concatenated entry lists.
proof fn lemma_dec_list_secret_versions_response_entries_concat(
    a: Seq<(Seq<char>, JsonView)>,
    b: Seq<(Seq<char>, JsonView)>,
    acc: crate::model::ListSecretVersionsResponseView,
)
    ensures
        dec_list_secret_versions_response_entries(a + b, acc) == match dec_list_secret_versions_response_entries(a, acc) {
            Some(m) => dec_list_secret_versions_response_entries(b, m),
            None => None::<crate::model::ListSecretVersionsResponseView>,
        },
    decreases a.len(),
{
    if a.len() == 0 {
        assert(a + b =~= b);
    } else {
        assert((a + b)[0] == a[0]);
        match dec_list_secret_versions_response_field(acc, a[0].0, a[0].1) {
            Some(m) => {
                lemma_dec_list_secret_versions_response_entries_concat(a.skip(1), b, m);
                assert((a + b).skip(1) =~= a.skip(1) + b);
            },
            None => {},
        }
    }
}

/// Encodes a list-secret-versions response in its wire form.
pub fn encode_list_secret_versions_response(v: &crate::model::ListSecretVersionsResponse) -> (r: Json)
    requires
        v@.wf(),
    ensures
        r@ == enc_list_secret_versions_response(v@),
        list_secret_versions_response_text_facts(v@),
{
    let ghost vv = v@;
    let mut es: Vec<(String, Json)> = Vec::new();
    let ghost mut expect: Seq<(Seq<char>, JsonView)> = Seq::empty();
    proof {
        assert(entries_view(es) =~= expect);
    }
        {
            let mut items: Vec<Json> = Vec::new();
            let mut i: usize = 0;
            while i < v.versions.len()
                invariant
                    i <= v.versions@.len(),
                    vv == v@,
                    vv.wf(),
                    items@.len() == i as int,
                    forall|j: int| 0 <= j < i ==> items@[j]@ == enc_secret_version(#[trigger] vv.versions[j]),
                    forall|j: int| 0 <= j < i ==> secret_version_text_facts(#[trigger] vv.versions[j]),
                decreases v.versions@.len() - i,
            {
                proof {
                    assert(vv.versions[i as int] == v.versions@[i as int]@);
                    assert(vv.versions[i as int].wf());
                }
                items.push(encode_secret_version(&v.versions[i]));
                i += 1;
            }
            proof {
                lemma_arr_view(items);
                assert(items_view(items) =~= Seq::new(vv.versions.len(), |i: int| enc_secret_version(vv.versions[i])));
            }
            es.push(("versions".to_owned(), Json::Arr(items)));
        }
        proof {
            expect = expect + seq![("versions"@, JsonView::Arr(Seq::new(vv.versions.len(), |i: int| enc_secret_version(vv.versions[i]))))];
            assert(entries_view(es) =~= expect);
        }
        es.push(("nextPageToken".to_owned(), Json::Str(v.next_page_token.clone())));
        proof {
            expect = expect + seq![("nextPageToken"@, JsonView::Str(vv.next_page_token))];
            assert(entries_view(es) =~= expect);
        }
        es.push(("totalSize".to_owned(), Json::Int(v.total_size as i64)));
        proof {
            expect = expect + seq![("totalSize"@, JsonView::Int(vv.total_size as i64))];
            assert(entries_view(es) =~= expect);
        }
    let r = Json::Obj(es);
    proof {
        lemma_obj_view(r->Obj_0);
        assert(expect =~= enc_list_secret_versions_response_entries(vv));
    }
    r
}

/// Decodes a list-secret-versions response from its wire form: unknown keys are skipped, null
/// values and missing fields leave the default, and a value of the wrong
/// shape for its key is a serialization error naming the field.
pub fn decode_list_secret_versions_response(v: &Json) -> (r: Result<crate::model::ListSecretVersionsResponse, Error>)
    ensures
        match r {
            Ok(out) => dec_list_secret_versions_response(v@) == Some(out@),
            Err(e) => dec_list_secret_versions_response(v@) is None && e.kind == ErrorKind::Serde,
        },
{
    let es = match v {
        Json::Obj(es) => es,
        _ => {
            return Err(shape_error("ListSecretVersionsResponse"));
        },
    };
    let ghost es0 = entries_view(*es);
    proof {
        lemma_obj_view(*es);
    }
    let mut out = crate::model::ListSecretVersionsResponse::default();
    let mut i: usize = 0;
    proof {
        assert(es0.skip(0) =~= es0);
    }
    while i < es.len()
        invariant
            i <= es@.len(),
            es0 == entries_view(*es),
            es0.len() == es@.len(),
            v@ == JsonView::Obj(es0),
            dec_list_secret_versions_response_entries(es0, crate::model::ListSecretVersionsResponseView::default_v()) == dec_list_secret_versions_response_entries(
                es0.skip(i as int),
                out@,
            ),
        decreases es@.len() - i,
    {
        let ghost pre = es0.skip(i as int);
        proof {
            assert(pre[0] == es0[i as int]);
            assert(es0[i as int] == (es@[i as int].0@, es@[i as int].1@));
            assert(pre.skip(1) =~= es0.skip(i as int + 1));
        }
        let key = &es[i].0;
        let val = &es[i].1;
        if str_eq(key.as_str(), "versions") {
                if let Json::Null = val {
                } else {
                    match val {
                    Json::Arr(items) => {
                        proof {
                            lemma_arr_view(*items);
                        }
                        match decode_secret_version_vec(items) {
                            Ok(xs) => {
                                out = crate::model::ListSecretVersionsResponse { versions: xs, ..out };
                            },
                            Err(e) => {
                                return Err(e);
                            },
                        }
                    },
                    _ => {
                        return Err(field_error("ListSecretVersionsResponse", "versions"));
                    },
                }
                }
            } else if str_eq(key.as_str(), "nextPageToken") {
                if let Json::Null = val {
                } else {
                    match jv_str(val) {
                    Ok(x) => {
                        out = crate::model::ListSecretVersionsResponse { next_page_token: x, ..out };
                    },
                    Err(_) => {
                        return Err(field_error("ListSecretVersionsResponse", "nextPageToken"));
                    },
                }
                }
            } else if str_eq(key.as_str(), "totalSize") {
                if let Json::Null = val {
                } else {
                    match jv_i32(val) {
                    Ok(x) => {
                        out = crate::model::ListSecretVersionsResponse { total_size: x, ..out };
                    },
                    Err(_) => {
                        return Err(field_error("ListSecretVersionsResponse", "totalSize"));
                    },
                }
                }
            }
        i += 1;
    }
    proof {
        assert(es0.skip(i as int).len() == 0);
    }
    Ok(out)
}

/// Law: a list-secret-versions response survives the wire: decoding its encoding gives back the
/// same value, field for field.
pub proof fn lemma_list_secret_versions_response_round_trip(v: crate::model::ListSecretVersionsResponseView)
    requires
        v.wf(),
        list_secret_versions_response_text_facts(v),
    ensures
        dec_list_secret_versions_response(enc_list_secret_versions_response(v)) == Some(v),
{
    reveal_strlit("versions");
    reveal_strlit("nextPageToken");
    reveal_strlit("totalSize");
    assert(("versions"@).len() == 8);
    assert(("nextPageToken"@).len() == 13);
    assert(("totalSize"@).len() == 9);
    assert("versions"@ != "nextPageToken"@);
    assert("versions"@ != "totalSize"@);
    assert("nextPageToken"@ != "totalSize"@);
    let a0 = crate::model::ListSecretVersionsResponseView::default_v();
    let s1 = seq![("versions"@, JsonView::Arr(Seq::new(v.versions.len(), |i: int| enc_secret_version(v.versions[i]))))];
    let s2 = seq![("nextPageToken"@, JsonView::Str(v.next_page_token))];
    let s3 = seq![("totalSize"@, JsonView::Int(v.total_size as i64))];
    let t3 = s3;
    let t2 = s2 + t3;
    let t1 = s1 + t2;
    assert(enc_list_secret_versions_response_entries(v) =~= t1);
    let a1 = crate::model::ListSecretVersionsResponseView { versions: v.versions, ..a0 };
    let a2 = crate::model::ListSecretVersionsResponseView { next_page_token: v.next_page_token, ..a1 };
    let a3 = crate::model::ListSecretVersionsResponseView { total_size: v.total_size, ..a2 };
    {
        lemma_secret_version_arr_round_trip(v.versions);
        assert(dec_list_secret_versions_response_field(a0, "versions"@, JsonView::Arr(Seq::new(v.versions.len(), |i: int| enc_secret_version(v.versions[i])))) == Some(a1));
        assert(s1.len() == 1);
        assert(s1.skip(1).len() == 0);
        assert(dec_list_secret_versions_response_entries(s1.skip(1), a1) == Some(a1));
        assert(dec_list_secret_versions_response_entries(s1, a0) == Some(a1));
    }
    {
        assert(dec_list_secret_versions_response_field(a1, "nextPageToken"@, JsonView::Str(v.next_page_token)) == Some(a2));
        assert(s2.len() == 1);
        assert(s2.skip(1).len() == 0);
        assert(dec_list_secret_versions_response_entries(s2.skip(1), a2) == Some(a2));
        assert(dec_list_secret_versions_response_entries(s2, a1) == Some(a2));
    }
    {
        assert(dec_list_secret_versions_response_field(a2, "totalSize"@, JsonView::Int(v.total_size as i64)) == Some(a3));
        assert(s3.len() == 1);
        assert(s3.skip(1).len() == 0);
        assert(dec_list_secret_versions_response_entries(s3.skip(1), a3) == Some(a3));
        assert(dec_list_secret_versions_response_entries(s3, a2) == Some(a3));
    }
    lemma_dec_list_secret_versions_response_entries_concat(s1, t2, a0);
    assert(dec_list_secret_versions_response_entries(t1, a0) == dec_list_secret_versions_response_entries(t2, a1));
    lemma_dec_list_secret_versions_response_entries_concat(s2, t3, a1);
    assert(dec_list_secret_versions_response_entries(t2, a1) == dec_list_secret_versions_response_entries(t3, a2));
    assert(dec_list_secret_versions_response_entries(t3, a2) == Some(a3));
    assert(a3 == v);
    assert(dec_list_secret_versions_response_entries(enc_list_secret_versions_response_entries(v), a0) == Some(v));
}

/// The wire entries of a get-secret-version request, in schema order.
pub open spec fn enc_get_secret_version_request_entries(v: crate::model::GetSecretVersionRequestView) -> Seq<(Seq<char>, JsonView)> {
    seq![("name"@, JsonView::Str(v.name))]
}

/// The wire form of a get-secret-version request.
pub open spec fn enc_get_secret_version_request(v: crate::model::GetSecretVersionRequestView) -> JsonView {
    JsonView::Obj(enc_get_secret_version_request_entries(v))
}

/// One decoding step of a get-secret-version request: a known key fills its field, null
/// counts as absent, an unknown key is skipped.
pub open spec fn dec_get_secret_version_request_field(acc: crate::model::GetSecretVersionRequestView, key: Seq<char>, val: JsonView) -> Option<crate::model::GetSecretVersionRequestView> {
    if key == "name"@ {
        if val is Null {
            Some(acc)
        } else {
            match field_str(val) {
                Some(s) => Some(crate::model::GetSecretVersionRequestView { name: s, ..acc }),
                None => None,
            }
        }
    } else {
        Some(acc)
    }
}

/// Decoding over the entries of a get-secret-version request, entry by entry.
pub open spec fn dec_get_secret_version_request_entries(es: Seq<(Seq<char>, JsonView)>, acc: crate::model::GetSecretVersionRequestView) -> Option<crate::model::GetSecretVersionRequestView>
    decreases es.len(),
{
    if es.len() == 0 {
        Some(acc)
    } else {
        match dec_get_secret_version_request_field(acc, es[0].0, es[0].1) {
            Some(a2) => dec_get_secret_version_request_entries(es.skip(1), a2),
            None => None,
        }
    }
}

/// The value of a get-secret-version request a wire value denotes, starting from the default.
pub open spec fn dec_get_secret_version_request(j: JsonView) -> Option<crate::model::GetSecretVersionRequestView> {
    match j {
        JsonView::Obj(es) => dec_get_secret_version_request_entries(es, crate::model::GetSecretVersionRequestView::default_v()),
        _ => None,
    }
}

/// Decoding distributes over concatenated entry lists.
proof fn lemma_dec_get_secret_version_request_entries_concat(
    a: Seq<(Seq<char>, JsonView)>,
    b: Seq<(Seq<char>, JsonView)>,
    acc: crate::model::GetSecretVersionRequestView,
)
    ensures
        dec_get_secret_version_request_entries(a + b, acc) == match dec_get_secret_version_request_entries(a, acc) {
            Some(m) => dec_get_secret_version_request_entries(b, m),
            None => None::<crate::model::GetSecretVersionRequestView>,
        },
    decreases a.len(),
{
    if a.len() == 0 {
        assert(a + b =~= b);
    } else {
        assert((a + b)[0] == a[0]);
        match dec_get_secret_version_request_field(acc, a[0].0, a[0].1) {
            Some(m) => {
                lemma_dec_get_secret_version_request_entries_concat(a.skip(1), b, m);
                assert((a + b).skip(1) =~= a.skip(1) + b);
            },
            None => {},
        }
    }
}

/// Encodes a get-secret-version request in its wire form.
pub fn encode_get_secret_version_request(v: &crate::model::GetSecretVersionRequest) -> (r: Json)
    requires
        v@.wf(),
    ensures
        r@ == enc_get_secret_version_request(v@),
{
    let ghost vv = v@;
    let mut es: Vec<(String, Json)> = Vec::new();
    let ghost mut expect: Seq<(Seq<char>, JsonView)> = Seq::empty();
    proof {
        assert(entries_view(es) =~= expect);
    }
        es.push(("name".to_owned(), Json::Str(v.name.clone())));
        proof {
            expect = expect + seq![("name"@, JsonView::Str(vv.name))];
            assert(entries_view(es) =~= expect);
        }
    let r = Json::Obj(es);
    proof {
        lemma_obj_view(r->Obj_0);
        assert(expect =~= enc_get_secret_version_request_entries(vv));
    }
    r
}

/// Decodes a get-secret-version request from its wire form: unknown keys are skipped, null
/// values and missing fields leave the default, and a value of the wrong
/// shape for its key is a serialization error naming the field.
pub fn decode_get_secret_version_request(v: &Json) -> (r: Result<crate::model::GetSecretVersionRequest, Error>)
    ensures
        match r {
            Ok(out) => dec_get_secret_version_request(v@) == Some(out@),
            Err(e) => dec_get_secret_version_request(v@) is None && e.kind == ErrorKind::Serde,
        },
{
    let es = match v {
        Json::Obj(es) => es,
        _ => {
            return Err(shape_error("GetSecretVersionRequest"));
        },
    };
    let ghost es0 = entries_view(*es);
    proof {
        lemma_obj_view(*es);
    }
    let mut out = crate::model::GetSecretVersionRequest::default();
    let mut i: usize = 0;
    proof {
        assert(es0.skip(0) =~= es0);
    }
    while i < es.len()
        invariant
            i <= es@.len(),
            es0 == entries_view(*es),
            es0.len() == es@.len(),
            v@ == JsonView::Obj(es0),
            dec_get_secret_version_request_entries(es0, crate::model::GetSecretVersionRequestView::default_v()) == dec_get_secret_version_request_entries(
                es0.skip(i as int),
                out@,
            ),
        decreases es@.len() - i,
    {
        let ghost pre = es0.skip(i as int);
        proof {
            assert(pre[0] == es0[i as int]);
            assert(es0[i as int] == (es@[i as int].0@, es@[i as int].1@));
            assert(pre.skip(1) =~= es0.skip(i as int + 1));
        }
        let key = &es[i].0;
        let val = &es[i].1;
        if str_eq(key.as_str(), "name") {
                if let Json::Null = val {
                } else {
                    match jv_str(val) {
                    Ok(x) => {
                        out = crate::model::GetSecretVersionRequest { name: x, ..out };
                    },
                    Err(_) => {
                        return Err(field_error("GetSecretVersionRequest", "name"));
                    },
                }
                }
            }
        i += 1;
    }
    proof {
        assert(es0.skip(i as int).len() == 0);
    }
    Ok(out)
}

/// Law: a get-secret-version request survives the wire: decoding its encoding gives back the
/// same value, field for field.
pub proof fn lemma_get_secret_version_request_round_trip(v: crate::model::GetSecretVersionRequestView)
    requires
        v.wf(),
    ensures
        dec_get_secret_version_request(enc_get_secret_version_request(v)) == Some(v),
{
    reveal_strlit("name");
    assert(("name"@).len() == 4);
    let a0 = crate::model::GetSecretVersionRequestView::default_v();
    let s1 = seq![("name"@, JsonView::Str(v.name))];
    let t1 = s1;
    assert(enc_get_secret_version_request_entries(v) =~= t1);
    let a1 = crate::model::GetSecretVersionRequestView { name: v.name, ..a0 };
    {
        assert(dec_get_secret_version_request_field(a0, "name"@, JsonView::Str(v.name)) == Some(a1));
        assert(s1.len() == 1);
        assert(s1.skip(1).len() == 0);
        assert(dec_get_secret_version_request_entries(s1.skip(1), a1) == Some(a1));
        assert(dec_get_secret_version_request_entries(s1, a0) == Some(a1));
    }

    assert(dec_get_secret_version_request_entries(t1, a0) == Some(a1));
    assert(a1 == v);
    assert(dec_get_secret_version_request_entries(enc_get_secret_version_request_entries(v), a0) == Some(v));
}

/// The wire entries of an update-secret request, in schema order.
pub open spec fn enc_update_secret_request_entries(v: crate::model::UpdateSecretRequestView) -> Seq<(Seq<char>, JsonView)> {
    (match v.secret { Some(x) => seq![("secret"@, enc_secret(x))], None => Seq::empty() })
        + (match v.update_mask { Some(ps) => seq![("updateMask"@, JsonView::Str(fieldmask_text(ps)))], None => Seq::empty() })
}

/// The wire form of an update-secret request.
pub open spec fn enc_update_secret_request(v: crate::model::UpdateSecretRequestView) -> JsonView {
    JsonView::Obj(enc_update_secret_request_entries(v))
}

/// One decoding step of an update-secret request: a known key fills its field, null
/// counts as absent, an unknown key is skipped.
pub open spec fn dec_update_secret_request_field(acc: crate::model::UpdateSecretRequestView, key: Seq<char>, val: JsonView) -> Option<crate::model::UpdateSecretRequestView> {
    if key == "secret"@ {
        if val is Null {
            Some(acc)
        } else {
            match dec_secret(val) {
                Some(x) => Some(crate::model::UpdateSecretRequestView { secret: Some(x), ..acc }),
                None => None,
            }
        }
    } else if key == "updateMask"@ {
        if val is Null {
            Some(acc)
        } else {
            match field_mask(val) {
                Some(ps) => Some(crate::model::UpdateSecretRequestView { update_mask: Some(ps), ..acc }),
                None => None,
            }
        }
    } else {
        Some(acc)
    }
}

/// Decoding over the entries of an update-secret request, entry by entry.
pub open spec fn dec_update_secret_request_entries(es: Seq<(Seq<char>, JsonView)>, acc: crate::model::UpdateSecretRequestView) -> Option<crate::model::UpdateSecretRequestView>
    decreases es.len(),
{
    if es.len() == 0 {
        Some(acc)
    } else {
        match dec_update_secret_request_field(acc, es[0].0, es[0].1) {
            Some(a2) => dec_update_secret_request_entries(es.skip(1), a2),
            None => None,
        }
    }
}

/// The value of an update-secret request a wire value denotes, starting from the default.
pub open spec fn dec_update_secret_request(j: JsonView) -> Option<crate::model::UpdateSecretRequestView> {
    match j {
        JsonView::Obj(es) => dec_update_secret_request_entries(es, crate::model::UpdateSecretRequestView::default_v()),
        _ => None,
    }
}

/// The facts about the trusted timestamp text conversion that the
/// round-trip law needs for this record: each contained timestamp's text
/// parses back to the same value. They are the contract of the rendering
/// wrapper, so every encoded record satisfies them.
pub open spec fn update_secret_request_text_facts(v: crate::model::UpdateSecretRequestView) -> bool {
    &&& (match v.secret { Some(x) => secret_text_facts(x), None => true })
}

/// Decoding distributes over concatenated entry lists.
proof fn lemma_dec_update_secret_request_entries_concat(
    a: Seq<(Seq<char>, JsonView)>,
    b: Seq<(Seq<char>, JsonView)>,
    acc: crate::model::UpdateSecretRequestView,
)
    ensures
        dec_update_secret_request_entries(a + b, acc) == match dec_update_secret_request_entries(a, acc) {
            Some(m) => dec_update_secret_request_entries(b, m),
            None => None::<crate::model::UpdateSecretRequestView>,
        },
    decreases a.len(),
{
    if a.len() == 0 {
        assert(a + b =~= b);
    } else {
        assert((a + b)[0] == a[0]);
        match dec_update_secret_request_field(acc, a[0].0, a[0].1) {
            Some(m) => {
                lemma_dec_update_secret_request_entries_concat(a.skip(1), b, m);
                assert((a + b).skip(1) =~= a.skip(1) + b);
            },
            None => {},
        }
    }
}

/// Encodes an update-secret request in its wire form.
pub fn encode_update_secret_request(v: &crate::model::UpdateSecretRequest) -> (r: Json)
    requires
        v@.wf(),
    ensures
        r@ == enc_update_secret_request(v@),
        update_secret_request_text_facts(v@),
{
    let ghost vv = v@;
    let mut es: Vec<(String, Json)> = Vec::new();
    let ghost mut expect: Seq<(Seq<char>, JsonView)> = Seq::empty();
    proof {
        assert(entries_view(es) =~= expect);
    }
        match &v.secret {
            Some(x) => {
                es.push(("secret".to_owned(), encode_secret(x)));
            },
            None => {},
        }
        proof {
            expect = expect + (match vv.secret { Some(x) => seq![("secret"@, enc_secret(x))], None => Seq::empty() });
            assert(entries_view(es) =~= expect);
        }
        match &v.update_mask {
            Some(m) => {
                es.push(("updateMask".to_owned(), Json::Str(fieldmask_render(&m.paths))));
            },
            None => {},
        }
        proof {
            expect = expect + (match vv.update_mask { Some(ps) => seq![("updateMask"@, JsonView::Str(fieldmask_text(ps)))], None => Seq::empty() });
            assert(entries_view(es) =~= expect);
        }
    let r = Json::Obj(es);
    proof {
        lemma_obj_view(r->Obj_0);
        assert(expect =~= enc_update_secret_request_entries(vv));
    }
    r
}

/// Decodes an update-secret request from its wire form: unknown keys are skipped, null
/// values and missing fields leave the default, and a value of the wrong
/// shape for its key is a serialization error naming the field.
pub fn decode_update_secret_request(v: &Json) -> (r: Result<crate::model::UpdateSecretRequest, Error>)
    ensures
        match r {
            Ok(out) => dec_update_secret_request(v@) == Some(out@),
            Err(e) => dec_update_secret_request(v@) is None && e.kind == ErrorKind::Serde,
        },
{
    let es = match v {
        Json::Obj(es) => es,
        _ => {
            return Err(shape_error("UpdateSecretRequest"));
        },
    };
    let ghost es0 = entries_view(*es);
    proof {
        lemma_obj_view(*es);
    }
    let mut out = crate::model::UpdateSecretRequest::default();
    let mut i: usize = 0;
    proof {
        assert(es0.skip(0) =~= es0);
    }
    while i < es.len()
        invariant
            i <= es@.len(),
            es0 == entries_view(*es),
            es0.len() == es@.len(),
            v@ == JsonView::Obj(es0),
            dec_update_secret_request_entries(es0, crate::model::UpdateSecretRequestView::default_v()) == dec_update_secret_request_entries(
                es0.skip(i as int),
                out@,
            ),
        decreases es@.len() - i,
    {
        let ghost pre = es0.skip(i as int);
        proof {
            assert(pre[0] == es0[i as int]);
            assert(es0[i as int] == (es@[i as int].0@, es@[i as int].1@));
            assert(pre.skip(1) =~= es0.skip(i as int + 1));
        }
        let key = &es[i].0;
        let val = &es[i].1;
        if str_eq(key.as_str(), "secret") {
                if let Json::Null = val {
                } else {
                    match decode_secret(val) {
                    Ok(x) => {
                        out = crate::model::UpdateSecretRequest { secret: Some(x), ..out };
                    },
                    Err(e) => {
                        return Err(e);
                    },
                }
                }
            } else if str_eq(key.as_str(), "updateMask") {
                if let Json::Null = val {
                } else {
                    match jv_mask(val) {
                    Ok(x) => {
                        out = crate::model::UpdateSecretRequest { update_mask: Some(x), ..out };
                    },
                    Err(_) => {
                        return Err(field_error("UpdateSecretRequest", "updateMask"));
                    },
                }
                }
            }
        i += 1;
    }
    proof {
        assert(es0.skip(i as int).len() == 0);
    }
    Ok(out)
}

/// Law: an update-secret request survives the wire: decoding its encoding gives back the
/// same value, field for field.
pub proof fn lemma_update_secret_request_round_trip(v: crate::model::UpdateSecretRequestView)
    requires
        v.wf(),
        update_secret_request_text_facts(v),
    ensures
        dec_update_secret_request(enc_update_secret_request(v)) == Some(v),
{
    reveal_strlit("secret");
    reveal_strlit("updateMask");
    assert(("secret"@).len() == 6);
    assert(("updateMask"@).len() == 10);
    assert("secret"@ != "updateMask"@);
    let a0 = crate::model::UpdateSecretRequestView::default_v();
    let s1 = (match v.secret { Some(x) => seq![("secret"@, enc_secret(x))], None => Seq::empty() });
    let s2 = (match v.update_mask { Some(ps) => seq![("updateMask"@, JsonView::Str(fieldmask_text(ps)))], None => Seq::empty() });
    let t2 = s2;
    let t1 = s1 + t2;
    assert(enc_update_secret_request_entries(v) =~= t1);
    let a1 = crate::model::UpdateSecretRequestView { secret: v.secret, ..a0 };
    let a2 = crate::model::UpdateSecretRequestView { update_mask: v.update_mask, ..a1 };
    match v.secret {
        Some(x) => {
            lemma_secret_round_trip(x);
            assert(dec_update_secret_request_field(a0, "secret"@, enc_secret(x)) == Some(a1));
        assert(s1.len() == 1);
        assert(s1.skip(1).len() == 0);
        assert(dec_update_secret_request_entries(s1.skip(1), a1) == Some(a1));
        assert(dec_update_secret_request_entries(s1, a0) == Some(a1));
        },
        None => {
            assert(s1.len() == 0);
            assert(a1 == a0);
            assert(dec_update_secret_request_entries(s1, a0) == Some(a1));
        },
    }
    match v.update_mask {
        Some(ps) => {
            crate::wellknown::lemma_fieldmask_round_trip(ps);
            assert(dec_update_secret_request_field(a1, "updateMask"@, JsonView::Str(fieldmask_text(ps))) == Some(a2));
        assert(s2.len() == 1);
        assert(s2.skip(1).len() == 0);
        assert(dec_update_secret_request_entries(s2.skip(1), a2) == Some(a2));
        assert(dec_update_secret_request_entries(s2, a1) == Some(a2));
        },
        None => {
            assert(s2.len() == 0);
            assert(a2 == a1);
            assert(dec_update_secret_request_entries(s2, a1) == Some(a2));
        },
    }
    lemma_dec_update_secret_request_entries_concat(s1, t2, a0);
    assert(dec_update_secret_request_entries(t1, a0) == dec_update_secret_request_entries(t2, a1));
    assert(dec_update_secret_request_entries(t2, a1) == Some(a2));
    assert(a2 == v);
    assert(dec_update_secret_request_entries(enc_update_secret_request_entries(v), a0) == Some(v));
}

/// The wire entries of an access-secret-version request, in schema order.
pub open spec fn enc_access_secret_version_request_entries(v: crate::model::AccessSecretVersionRequestView) -> Seq<(Seq<char>, JsonView)> {
    seq![("name"@, JsonView::Str(v.name))]
}

/// The wire form of an access-secret-version request.
pub open spec fn enc_access_secret_version_request(v: crate::model::AccessSecretVersionRequestView) -> JsonView {
    JsonView::Obj(enc_access_secret_version_request_entries(v))
}

/// One decoding step of an access-secret-version request: a known key fills its field, null
/// counts as absent, an unknown key is skipped.
pub open spec fn dec_access_secret_version_request_field(acc: crate::model::AccessSecretVersionRequestView, key: Seq<char>, val: JsonView) -> Option<crate::model::AccessSecretVersionRequestView> {
    if key == "name"@ {
        if val is Null {
            Some(acc)
        } else {
            match field_str(val) {
                Some(s) => Some(crate::model::AccessSecretVersionRequestView { name: s, ..acc }),
                None => None,
            }
        }
    } else {
        Some(acc)
    }
}

/// Decoding over the entries of an access-secret-version request, entry by entry.
pub open spec fn dec_access_secret_version_request_entries(es: Seq<(Seq<char>, JsonView)>, acc: crate::model::AccessSecretVersionRequestView) -> Option<crate::model::AccessSecretVersionRequestView>
    decreases es.len(),
{
    if es.len() == 0 {
        Some(acc)
    } else {
        match dec_access_secret_version_request_field(acc, es[0].0, es[0].1) {
            Some(a2) => dec_access_secret_version_request_entries(es.skip(1), a2),
            None => None,
        }
    }
}

/// The value of an access-secret-version request a wire value denotes, starting from the default.
pub open spec fn dec_access_secret_version_request(j: JsonView) -> Option<crate::model::AccessSecretVersionRequestView> {
    match j {
        JsonView::Obj(es) => dec_access_secret_version_request_entries(es, crate::model::AccessSecretVersionRequestView::default_v()),
        _ => None,
    }
}

/// Decoding distributes over concatenated entry lists.
proof fn lemma_dec_access_secret_version_request_entries_concat(
    a: Seq<(Seq<char>, JsonView)>,
    b: Seq<(Seq<char>, JsonView)>,
    acc: crate::model::AccessSecretVersionRequestView,
)
    ensures
        dec_access_secret_version_request_entries(a + b, acc) == match dec_access_secret_version_request_entries(a, acc) {
            Some(m) => dec_access_secret_version_request_entries(b, m),
            None => None::<crate::model::AccessSecretVersionRequestView>,
        },
    decreases a.len(),
{
    if a.len() == 0 {
        assert(a + b =~= b);
    } else {
        assert((a + b)[0] == a[0]);
        match dec_access_secret_version_request_field(acc, a[0].0, a[0].1) {
            Some(m) => {
                lemma_dec_access_secret_version_request_entries_concat(a.skip(1), b, m);
                assert((a + b).skip(1) =~= a.skip(1) + b);
            },
            None => {},
        }
    }
}

/// Encodes an access-secret-version request in its wire form.
pub fn encode_access_secret_version_request(v: &crate::model::AccessSecretVersionRequest) -> (r: Json)
    requires
        v@.wf(),
    ensures
        r@ == enc_access_secret_version_request(v@),
{
    let ghost vv = v@;
    let mut es: Vec<(String, Json)> = Vec::new();
    let ghost mut expect: Seq<(Seq<char>, JsonView)> = Seq::empty();
    proof {
        assert(entries_view(es) =~= expect);
    }
        es.push(("name".to_owned(), Json::Str(v.name.clone())));
        proof {
            expect = expect + seq![("name"@, JsonView::Str(vv.name))];
            assert(entries_view(es) =~= expect);
        }
    let r = Json::Obj(es);
    proof {
        lemma_obj_view(r->Obj_0);
        assert(expect =~= enc_access_secret_version_request_entries(vv));
    }
    r
}

/// Decodes an access-secret-version request from its wire form: unknown keys are skipped, null
/// values and missing fields leave the default, and a value of the wrong
/// shape for its key is a serialization error naming the field.
pub fn decode_access_secret_version_request(v: &Json) -> (r: Result<crate::model::AccessSecretVersionRequest, Error>)
    ensures
        match r {
            Ok(out) => dec_access_secret_version_request(v@) == Some(out@),
            Err(e) => dec_access_secret_version_request(v@) is None && e.kind == ErrorKind::Serde,
        },
{
    let es = match v {
        Json::Obj(es) => es,
        _ => {
            return Err(shape_error("AccessSecretVersionRequest"));
        },
    };
    let ghost es0 = entries_view(*es);
    proof {
        lemma_obj_view(*es);
    }
    let mut out = crate::model::AccessSecretVersionRequest::default();
    let mut i: usize = 0;
    proof {
        assert(es0.skip(0) =~= es0);
    }
    while i < es.len()
        invariant
            i <= es@.len(),
            es0 == entries_view(*es),
            es0.len() == es@.len(),
            v@ == JsonView::Obj(es0),
            dec_access_secret_version_request_entries(es0, crate::model::AccessSecretVersionRequestView::default_v()) == dec_access_secret_version_request_entries(
                es0.skip(i as int),
                out@,
            ),
        decreases es@.len() - i,
    {
        let ghost pre = es0.skip(i as int);
        proof {
            assert(pre[0] == es0[i as int]);
            assert(es0[i as int] == (es@[i as int].0@, es@[i as int].1@));
            assert(pre.skip(1) =~= es0.skip(i as int + 1));
        }
        let key = &es[i].0;
        let val = &es[i].1;
        if str_eq(key.as_str(), "name") {
                if let Json::Null = val {
                } else {
                    match jv_str(val) {
                    Ok(x) => {
                        out = crate::model::AccessSecretVersionRequest { name: x, ..out };
                    },
                    Err(_) => {
                        return Err(field_error("AccessSecretVersionRequest", "name"));
                    },
                }
                }
            }
        i += 1;
    }
    proof {
        assert(es0.skip(i as int).len() == 0);
    }
    Ok(out)
}

/// Law: an access-secret-version request survives the wire: decoding its encoding gives back the
/// same value, field for field.
pub proof fn lemma_access_secret_version_request_round_trip(v: crate::model::AccessSecretVersionRequestView)
    requires
        v.wf(),
    ensures
        dec_access_secret_version_request(enc_access_secret_version_request(v)) == Some(v),
{
    reveal_strlit("name");
    assert(("name"@).len() == 4);
    let a0 = crate::model::AccessSecretVersionRequestView::default_v();
    let s1 = seq![("name"@, JsonView::Str(v.name))];
    let t1 = s1;
    assert(enc_access_secret_version_request_entries(v) =~= t1);
    let a1 = crate::model::AccessSecretVersionRequestView { name: v.name, ..a0 };
    {
        assert(dec_access_secret_version_request_field(a0, "name"@, JsonView::Str(v.name)) == Some(a1));
        assert(s1.len() == 1);
        assert(s1.skip(1).len() == 0);
        assert(dec_access_secret_version_request_entries(s1.skip(1), a1) == Some(a1));
        assert(dec_access_secret_version_request_entries(s1, a0) == Some(a1));
    }

    assert(dec_access_secret_version_request_entries(t1, a0) == Some(a1));
    assert(a1 == v);
    assert(dec_access_secret_version_request_entries(enc_access_secret_version_request_entries(v), a0) == Some(v));
}

/// The wire entries of an access-secret-version response, in schema order.
pub open spec fn enc_access_secret_version_response_entries(v: crate::model::AccessSecretVersionResponseView) -> Seq<(Seq<char>, JsonView)> {
    seq![("name"@, JsonView::Str(v.name))]
        + (match v.payload { Some(x) => seq![("payload"@, enc_secret_payload(x))], None => Seq::empty() })
}

/// The wire form of an access-secret-version response.
pub open spec fn enc_access_secret_version_response(v: crate::model::AccessSecretVersionResponseView) -> JsonView {
    JsonView::Obj(enc_access_secret_version_response_entries(v))
}

/// One decoding step of an access-secret-version response: a known key fills its field, null
/// counts as absent, an unknown key is skipped.
pub open spec fn dec_access_secret_version_response_field(acc: crate::model::AccessSecretVersionResponseView, key: Seq<char>, val: JsonView) -> Option<crate::model::AccessSecretVersionResponseView> {
    if key == "name"@ {
        if val is Null {
            Some(acc)
        } else {
            match field_str(val) {
                Some(s) => Some(crate::model::AccessSecretVersionResponseView { name: s, ..acc }),
                None => None,
            }
        }
    } else if key == "payload"@ {
        if val is Null {
            Some(acc)
        } else {
            match dec_secret_payload(val) {
                Some(x) => Some(crate::model::AccessSecretVersionResponseView { payload: Some(x), ..acc }),
                None => None,
            }
        }
    } else {
        Some(acc)
    }
}

/// Decoding over the entries of an access-secret-version response, entry by entry.
pub open spec fn dec_access_secret_version_response_entries(es: Seq<(Seq<char>, JsonView)>, acc: crate::model::AccessSecretVersionResponseView) -> Option<crate::model::AccessSecretVersionResponseView>
    decreases es.len(),
{
    if es.len() == 0 {
        Some(acc)
    } else {
        match dec_access_secret_version_response_field(acc, es[0].0, es[0].1) {
            Some(a2) => dec_access_secret_version_response_entries(es.skip(1), a2),
            None => None,
        }
    }
}

/// The value of an access-secret-version response a wire value denotes, starting from the default.
pub open spec fn dec_access_secret_version_response(j: JsonView) -> Option<crate::model::AccessSecretVersionResponseView> {
    match j {
        JsonView::Obj(es) => dec_access_secret_version_response_entries(es, crate::model::AccessSecretVersionResponseView::default_v()),
        _ => None,
    }
}

/// Decoding distributes over concatenated entry lists.
proof fn lemma_dec_access_secret_version_response_entries_concat(
    a: Seq<(Seq<char>, JsonView)>,
    b: Seq<(Seq<char>, JsonView)>,
    acc: crate::model::AccessSecretVersionResponseView,
)
    ensures
        dec_access_secret_version_response_entries(a + b, acc) == match dec_access_secret_version_response_entries(a, acc) {
            Some(m) => dec_access_secret_version_response_entries(b, m),
            None => None::<crate::model::AccessSecretVersionResponseView>,
        },
    decreases a.len(),
{
    if a.len() == 0 {
        assert(a + b =~= b);
    } else {
        assert((a + b)[0] == a[0]);
        match dec_access_secret_version_response_field(acc, a[0].0, a[0].1) {
            Some(m) => {
                lemma_dec_access_secret_version_response_entries_concat(a.skip(1), b, m);
                assert((a + b).skip(1) =~= a.skip(1) + b);
            },
            None => {},
        }
    }
}

/// Encodes an access-secret-version response in its wire form.
pub fn encode_access_secret_version_response(v: &crate::model::AccessSecretVersionResponse) -> (r: Json)
    requires
        v@.wf(),
    ensures
        r@ == enc_access_secret_version_response(v@),
{
    let ghost vv = v@;
    let mut es: Vec<(String, Json)> = Vec::new();
    let ghost mut expect: Seq<(Seq<char>, JsonView)> = Seq::empty();
    proof {
        assert(entries_view(es) =~= expect);
    }
        es.push(("name".to_owned(), Json::Str(v.name.clone())));
        proof {
            expect = expect + seq![("name"@, JsonView::Str(vv.name))];
            assert(entries_view(es) =~= expect);
        }
        match &v.payload {
            Some(x) => {
                es.push(("payload".to_owned(), encode_secret_payload(x)));
            },
            None => {},
        }
        proof {
            expect = expect + (match vv.payload { Some(x) => seq![("payload"@, enc_secret_payload(x))], None => Seq::empty() });
            assert(entries_view(es) =~= expect);
        }
    let r = Json::Obj(es);
    proof {
        lemma_obj_view(r->Obj_0);
        assert(expect =~= enc_access_secret_version_response_entries(vv));
    }
    r
}

/// Decodes an access-secret-version response from its wire form: unknown keys are skipped, null
/// values and missing fields leave the default, and a value of the wrong
/// shape for its key is a serialization error naming the field.
pub fn decode_access_secret_version_response(v: &Json) -> (r: Result<crate::model::AccessSecretVersionResponse, Error>)
    ensures
        match r {
            Ok(out) => dec_access_secret_version_response(v@) == Some(out@),
            Err(e) => dec_access_secret_version_response(v@) is None && e.kind == ErrorKind::Serde,
        },
{
    let es = match v {
        Json::Obj(es) => es,
        _ => {
            return Err(shape_error("AccessSecretVersionResponse"));
        },
    };
    let ghost es0 = entries_view(*es);
    proof {
        lemma_obj_view(*es);
    }
    let mut out = crate::model::AccessSecretVersionResponse::default();
    let mut i: usize = 0;
    proof {
        assert(es0.skip(0) =~= es0);
    }
    while i < es.len()
        invariant
            i <= es@.len(),
            es0 == entries_view(*es),
            es0.len() == es@.len(),
            v@ == JsonView::Obj(es0),
            dec_access_secret_version_response_entries(es0, crate::model::AccessSecretVersionResponseView::default_v()) == dec_access_secret_version_response_entries(
                es0.skip(i as int),
                out@,
            ),
        decreases es@.len() - i,
    {
        let ghost pre = es0.skip(i as int);
        proof {
            assert(pre[0] == es0[i as int]);
            assert(es0[i as int] == (es@[i as int].0@, es@[i as int].1@));
            assert(pre.skip(1) =~= es0.skip(i as int + 1));
        }
        let key = &es[i].0;
        let val = &es[i].1;
        if str_eq(key.as_str(), "name") {
                if let Json::Null = val {
                } else {
                    match jv_str(val) {
                    Ok(x) => {
                        out = crate::model::AccessSecretVersionResponse { name: x, ..out };
                    },
                    Err(_) => {
                        return Err(field_error("AccessSecretVersionResponse", "name"));
                    },
                }
                }
            } else if str_eq(key.as_str(), "payload") {
                if let Json::Null = val {
                } else {
                    match decode_secret_payload(val) {
                    Ok(x) => {
                        out = crate::model::AccessSecretVersionResponse { payload: Some(x), ..out };
                    },
                    Err(e) => {
                        return Err(e);
                    },
                }
                }
            }
        i += 1;
    }
    proof {
        assert(es0.skip(i as int).len() == 0);
    }
    Ok(out)
}

/// Law: an access-secret-version response survives the wire: decoding its encoding gives back the
/// same value, field for field.
pub proof fn lemma_access_secret_version_response_round_trip(v: crate::model::AccessSecretVersionResponseView)
    requires
        v.wf(),
    ensures
        dec_access_secret_version_response(enc_access_secret_version_response(v)) == Some(v),
{
    reveal_strlit("name");
    reveal_strlit("payload");
    assert(("name"@).len() == 4);
    assert(("payload"@).len() == 7);
    assert("name"@ != "payload"@);
    let a0 = crate::model::AccessSecretVersionResponseView::default_v();
    let s1 = seq![("name"@, JsonView::Str(v.name))];
    let s2 = (match v.payload { Some(x) => seq![("payload"@, enc_secret_payload(x))], None => Seq::empty() });
    let t2 = s2;
    let t1 = s1 + t2;
    assert(enc_access_secret_version_response_entries(v) =~= t1);
    let a1 = crate::model::AccessSecretVersionResponseView { name: v.name, ..a0 };
    let a2 = crate::model::AccessSecretVersionResponseView { payload: v.payload, ..a1 };
    {
        assert(dec_access_secret_version_response_field(a0, "name"@, JsonView::Str(v.name)) == Some(a1));
        assert(s1.len() == 1);
        assert(s1.skip(1).len() == 0);
        assert(dec_access_secret_version_response_entries(s1.skip(1), a1) == Some(a1));
        assert(dec_access_secret_version_response_entries(s1, a0) == Some(a1));
    }
    match v.payload {
        Some(x) => {
            lemma_secret_payload_round_trip(x);
            assert(dec_access_secret_version_response_field(a1, "payload"@, enc_secret_payload(x)) == Some(a2));
        assert(s2.len() == 1);
        assert(s2.skip(1).len() == 0);
        assert(dec_access_secret_version_response_entries(s2.skip(1), a2) == Some(a2));
        assert(dec_access_secret_version_response_entries(s2, a1) == Some(a2));
        },
        None => {
            assert(s2.len() == 0);
            assert(a2 == a1);
            assert(dec_access_secret_version_response_entries(s2, a1) == Some(a2));
        },
    }
    lemma_dec_access_secret_version_response_entries_concat(s1, t2, a0);
    assert(dec_access_secret_version_response_entries(t1, a0) == dec_access_secret_version_response_entries(t2, a1));
    assert(dec_access_secret_version_response_entries(t2, a1) == Some(a2));
    assert(a2 == v);
    assert(dec_access_secret_version_response_entries(enc_access_secret_version_response_entries(v), a0) == Some(v));
}

/// The wire entries of a delete-secret request, in schema order.
pub open spec fn enc_delete_secret_request_entries(v: crate::model::DeleteSecretRequestView) -> Seq<(Seq<char>, JsonView)> {
    seq![("name"@, JsonView::Str(v.name))]
        + seq![("etag"@, JsonView::Str(v.etag))]
}

/// The wire form of a delete-secret request.
pub open spec fn enc_delete_secret_request(v: crate::model::DeleteSecretRequestView) -> JsonView {
    JsonView::Obj(enc_delete_secret_request_entries(v))
}

/// One decoding step of a delete-secret request: a known key fills its field, null
/// counts as absent, an unknown key is skipped.
pub open spec fn dec_delete_secret_request_field(acc: crate::model::DeleteSecretRequestView, key: Seq<char>, val: JsonView) -> Option<crate::model::DeleteSecretRequestView> {
    if key == "name"@ {
        if val is Null {
            Some(acc)
        } else {
            match field_str(val) {
                Some(s) => Some(crate::model::DeleteSecretRequestView { name: s, ..acc }),
                None => None,
            }
        }
    } else if key == "etag"@ {
        if val is Null {
            Some(acc)
        } else {
            match field_str(val) {
                Some(s) => Some(crate::model::DeleteSecretRequestView { etag: s, ..acc }),
                None => None,
            }
        }
    } else {
        Some(acc)
    }
}

/// Decoding over the entries of a delete-secret request, entry by entry.
pub open spec fn dec_delete_secret_request_entries(es: Seq<(Seq<char>, JsonView)>, acc: crate::model::DeleteSecretRequestView) -> Option<crate::model::DeleteSecretRequestView>
    decreases es.len(),
{
    if es.len() == 0 {
        Some(acc)
    } else {
        match dec_delete_secret_request_field(acc, es[0].0, es[0].1) {
            Some(a2) => dec_delete_secret_request_entries(es.skip(1), a2),
            None => None,
        }
    }
}

/// The value of a delete-secret request a wire value denotes, starting from the default.
pub open spec fn dec_delete_secret_request(j: JsonView) -> Option<crate::model::DeleteSecretRequestView> {
    match j {
        JsonView::Obj(es) => dec_delete_secret_request_entries(es, crate::model::DeleteSecretRequestView::default_v()),
        _ => None,
    }
}

/// Decoding distributes over concatenated entry lists.
proof fn lemma_dec_delete_secret_request_entries_concat(
    a: Seq<(Seq<char>, JsonView)>,
    b: Seq<(Seq<char>, JsonView)>,
    acc: crate::model::DeleteSecretRequestView,
)
    ensures
        dec_delete_secret_request_entries(a + b, acc) == match dec_delete_secret_request_entries(a, acc) {
            Some(m) => dec_delete_secret_request_entries(b, m),
            None => None::<crate::model::DeleteSecretRequestView>,
        },
    decreases a.len(),
{
    if a.len() == 0 {
        assert(a + b =~= b);
    } else {
        assert((a + b)[0] == a[0]);
        match dec_delete_secret_request_field(acc, a[0].0, a[0].1) {
            Some(m) => {
                lemma_dec_delete_secret_request_entries_concat(a.skip(1), b, m);
                assert((a + b).skip(1) =~= a.skip(1) + b);
            },
            None => {},
        }
    }
}

/// Encodes a delete-secret request in its wire form.
pub fn encode_delete_secret_request(v: &crate::model::DeleteSecretRequest) -> (r: Json)
    requires
        v@.wf(),
    ensures
        r@ == enc_delete_secret_request(v@),
{
    let ghost vv = v@;
    let mut es: Vec<(String, Json)> = Vec::new();
    let ghost mut expect: Seq<(Seq<char>, JsonView)> = Seq::empty();
    proof {
        assert(entries_view(es) =~= expect);
    }
        es.push(("name".to_owned(), Json::Str(v.name.clone())));
        proof {
            expect = expect + seq![("name"@, JsonView::Str(vv.name))];
            assert(entries_view(es) =~= expect);
        }
        es.push(("etag".to_owned(), Json::Str(v.etag.clone())));
        proof {
            expect = expect + seq![("etag"@, JsonView::Str(vv.etag))];
            assert(entries_view(es) =~= expect);
        }
    let r = Json::Obj(es);
    proof {
        lemma_obj_view(r->Obj_0);
        assert(expect =~= enc_delete_secret_request_entries(vv));
    }
    r
}

/// Decodes a delete-secret request from its wire form: unknown keys are skipped, null
/// values and missing fields leave the default, and a value of the wrong
/// shape for its key is a serialization error naming the field.
pub fn decode_delete_secret_request(v: &Json) -> (r: Result<crate::model::DeleteSecretRequest, Error>)
    ensures
        match r {
            Ok(out) => dec_delete_secret_request(v@) == Some(out@),
            Err(e) => dec_delete_secret_request(v@) is None && e.kind == ErrorKind::Serde,
        },
{
    let es = match v {
        Json::Obj(es) => es,
        _ => {
            return Err(shape_error("DeleteSecretRequest"));
        },
    };
    let ghost es0 = entries_view(*es);
    proof {
        lemma_obj_view(*es);
    }
    let mut out = crate::model::DeleteSecretRequest::default();
    let mut i: usize = 0;
    proof {
        assert(es0.skip(0) =~= es0);
    }
    while i < es.len()
        invariant
            i <= es@.len(),
            es0 == entries_view(*es),
            es0.len() == es@.len(),
            v@ == JsonView::Obj(es0),
            dec_delete_secret_request_entries(es0, crate::model::DeleteSecretRequestView::default_v()) == dec_delete_secret_request_entries(
                es0.skip(i as int),
                out@,
            ),
        decreases es@.len() - i,
    {
        let ghost pre = es0.skip(i as int);
        proof {
            assert(pre[0] == es0[i as int]);
            assert(es0[i as int] == (es@[i as int].0@, es@[i as int].1@));
            assert(pre.skip(1) =~= es0.skip(i as int + 1));
        }
        let key = &es[i].0;
        let val = &es[i].1;
        if str_eq(key.as_str(), "name") {
                if let Json::Null = val {
                } else {
                    match jv_str(val) {
                    Ok(x) => {
                        out = crate::model::DeleteSecretRequest { name: x, ..out };
                    },
                    Err(_) => {
                        return Err(field_error("DeleteSecretRequest", "name"));
                    },
                }
                }
            } else if str_eq(key.as_str(), "etag") {
                if let Json::Null = val {
                } else {
                    match jv_str(val) {
                    Ok(x) => {
                        out = crate::model::DeleteSecretRequest { etag: x, ..out };
                    },
                    Err(_) => {
                        return Err(field_error("DeleteSecretRequest", "etag"));
                    },
                }
                }
            }
        i += 1;
    }
    proof {
        assert(es0.skip(i as int).len() == 0);
    }
    Ok(out)
}

/// Law: a delete-secret request survives the wire: decoding its encoding gives back the
/// same value, field for field.
pub proof fn lemma_delete_secret_request_round_trip(v: crate::model::DeleteSecretRequestView)
    requires
        v.wf(),
    ensures
        dec_delete_secret_request(enc_delete_secret_request(v)) == Some(v),
{
    reveal_strlit("name");
    reveal_strlit("etag");
    assert(("name"@).len() == 4);
    assert(("etag"@).len() == 4);
    assert(("name"@)[0] == 'n' && ("etag"@)[0] == 'e');
    assert("name"@ != "etag"@);
    let a0 = crate::model::DeleteSecretRequestView::default_v();
    let s1 = seq![("name"@, JsonView::Str(v.name))];
    let s2 = seq![("etag"@, JsonView::Str(v.etag))];
    let t2 = s2;
    let t1 = s1 + t2;
    assert(enc_delete_secret_request_entries(v) =~= t1);
    let a1 = crate::model::DeleteSecretRequestView { name: v.name, ..a0 };
    let a2 = crate::model::DeleteSecretRequestView { etag: v.etag, ..a1 };
    {
        assert(dec_delete_secret_request_field(a0, "name"@, JsonView::Str(v.name)) == Some(a1));
        assert(s1.len() == 1);
        assert(s1.skip(1).len() == 0);
        assert(dec_delete_secret_request_entries(s1.skip(1), a1) == Some(a1));
        assert(dec_delete_secret_request_entries(s1, a0) == Some(a1));
    }
    {
        assert(dec_delete_secret_request_field(a1, "etag"@, JsonView::Str(v.etag)) == Some(a2));
        assert(s2.len() == 1);
        assert(s2.skip(1).len() == 0);
        assert(dec_delete_secret_request_entries(s2.skip(1), a2) == Some(a2));
        assert(dec_delete_secret_request_entries(s2, a1) == Some(a2));
    }
    lemma_dec_delete_secret_request_entries_concat(s1, t2, a0);
    assert(dec_delete_secret_request_entries(t1, a0) == dec_delete_secret_request_entries(t2, a1));
    assert(dec_delete_secret_request_entries(t2, a1) == Some(a2));
    assert(a2 == v);
    assert(dec_delete_secret_request_entries(enc_delete_secret_request_entries(v), a0) == Some(v));
}

/// The wire entries of a disable-secret-version request, in schema order.
pub open spec fn enc_disable_secret_version_request_entries(v: crate::model::DisableSecretVersionRequestView) -> Seq<(Seq<char>, JsonView)> {
    seq![("name"@, JsonView::Str(v.name))]
        + seq![("etag"@, JsonView::Str(v.etag))]
}

/// The wire form of a disable-secret-version request.
pub open spec fn enc_disable_secret_version_request(v: crate::model::DisableSecretVersionRequestView) -> JsonView {
    JsonView::Obj(enc_disable_secret_version_request_entries(v))
}

/// One decoding step of a disable-secret-version request: a known key fills its field, null
/// counts as absent, an unknown key is skipped.
pub open spec fn dec_disable_secret_version_request_field(acc: crate::model::DisableSecretVersionRequestView, key: Seq<char>, val: JsonView) -> Option<crate::model::DisableSecretVersionRequestView> {
    if key == "name"@ {
        if val is Null {
            Some(acc)
        } else {
            match field_str(val) {
                Some(s) => Some(crate::model::DisableSecretVersionRequestView { name: s, ..acc }),
                None => None,
            }
        }
    } else if key == "etag"@ {
        if val is Null {
            Some(acc)
        } else {
            match field_str(val) {
                Some(s) => Some(crate::model::DisableSecretVersionRequestView { etag: s, ..acc }),
                None => None,
            }
        }
    } else {
        Some(acc)
    }
}

/// Decoding over the entries of a disable-secret-version request, entry by entry.
pub open spec fn dec_disable_secret_version_request_entries(es: Seq<(Seq<char>, JsonView)>, acc: crate::model::DisableSecretVersionRequestView) -> Option<crate::model::DisableSecretVersionRequestView>
    decreases es.len(),
{
    if es.len() == 0 {
        Some(acc)
    } else {
        match dec_disable_secret_version_request_field(acc, es[0].0, es[0].1) {
            Some(a2) => dec_disable_secret_version_request_entries(es.skip(1), a2),
            None => None,
        }
    }
}

/// The value of a disable-secret-version request a wire value denotes, starting from the default.
pub open spec fn dec_disable_secret_version_request(j: JsonView) -> Option<crate::model::DisableSecretVersionRequestView> {
    match j {
        JsonView::Obj(es) => dec_disable_secret_version_request_entries(es, crate::model::DisableSecretVersionRequestView::default_v()),
        _ => None,
    }
}

/// Decoding distributes over concatenated entry lists.
proof fn lemma_dec_disable_secret_version_request_entries_concat(
    a: Seq<(Seq<char>, JsonView)>,
    b: Seq<(Seq<char>, JsonView)>,
    acc: crate::model::DisableSecretVersionRequestView,
)
    ensures
        dec_disable_secret_version_request_entries(a + b, acc) == match dec_disable_secret_version_request_entries(a, acc) {
            Some(m) => dec_disable_secret_version_request_entries(b, m),
            None => None::<crate::model::DisableSecretVersionRequestView>,
        },
    decreases a.len(),
{
    if a.len() == 0 {
        assert(a + b =~= b);
    } else {
        assert((a + b)[0] == a[0]);
        match dec_disable_secret_version_request_field(acc, a[0].0, a[0].1) {
            Some(m) => {
                lemma_dec_disable_secret_version_request_entries_concat(a.skip(1), b, m);
                assert((a + b).skip(1) =~= a.skip(1) + b);
            },
            None => {},
        }
    }
}

/// Encodes a disable-secret-version request in its wire form.
pub fn encode_disable_secret_version_request(v: &crate::model::DisableSecretVersionRequest) -> (r: Json)
    requires
        v@.wf(),
    ensures
        r@ == enc_disable_secret_version_request(v@),
{
    let ghost vv = v@;
    let mut es: Vec<(String, Json)> = Vec::new();
    let ghost mut expect: Seq<(Seq<char>, JsonView)> = Seq::empty();
    proof {
        assert(entries_view(es) =~= expect);
    }
        es.push(("name".to_owned(), Json::Str(v.name.clone())));
        proof {
            expect = expect + seq![("name"@, JsonView::Str(vv.name))];
            assert(entries_view(es) =~= expect);
        }
        es.push(("etag".to_owned(), Json::Str(v.etag.clone())));
        proof {
            expect = expect + seq![("etag"@, JsonView::Str(vv.etag))];
            assert(entries_view(es) =~= expect);
        }
    let r = Json::Obj(es);
    proof {
        lemma_obj_view(r->Obj_0);
        assert(expect =~= enc_disable_secret_version_request_entries(vv));
    }
    r
}

/// Decodes a disable-secret-version request from its wire form: unknown keys are skipped, null
/// values and missing fields leave the default, and a value of the wrong
/// shape for its key is a serialization error naming the field.
pub fn decode_disable_secret_version_request(v: &Json) -> (r: Result<crate::model::DisableSecretVersionRequest, Error>)
    ensures
        match r {
            Ok(out) => dec_disable_secret_version_request(v@) == Some(out@),
            Err(e) => dec_disable_secret_version_request(v@) is None && e.kind == ErrorKind::Serde,
        },
{
    let es = match v {
        Json::Obj(es) => es,
        _ => {
            return Err(shape_error("DisableSecretVersionRequest"));
        },
    };
    let ghost es0 = entries_view(*es);
    proof {
        lemma_obj_view(*es);
    }
    let mut out = crate::model::DisableSecretVersionRequest::default();
    let mut i: usize = 0;
    proof {
        assert(es0.skip(0) =~= es0);
    }
    while i < es.len()
        invariant
            i <= es@.len(),
            es0 == entries_view(*es),
            es0.len() == es@.len(),
            v@ == JsonView::Obj(es0),
            dec_disable_secret_version_request_entries(es0, crate::model::DisableSecretVersionRequestView::default_v()) == dec_disable_secret_version_request_entries(
                es0.skip(i as int),
                out@,
            ),
        decreases es@.len() - i,
    {
        let ghost pre = es0.skip(i as int);
        proof {
            assert(pre[0] == es0[i as int]);
            assert(es0[i as int] == (es@[i as int].0@, es@[i as int].1@));
            assert(pre.skip(1) =~= es0.skip(i as int + 1));
        }
        let key = &es[i].0;
        let val = &es[i].1;
        if str_eq(key.as_str(), "name") {
                if let Json::Null = val {
                } else {
                    match jv_str(val) {
                    Ok(x) => {
                        out = crate::model::DisableSecretVersionRequest { name: x, ..out };
                    },
                    Err(_) => {
                        return Err(field_error("DisableSecretVersionRequest", "name"));
                    },
                }
                }
            } else if str_eq(key.as_str(), "etag") {
                if let Json::Null = val {
                } else {
                    match jv_str(val) {
                    Ok(x) => {
                        out = crate::model::DisableSecretVersionRequest { etag: x, ..out };
                    },
                    Err(_) => {
                        return Err(field_error("DisableSecretVersionRequest", "etag"));
                    },
                }
                }
            }
        i += 1;
    }
    proof {
        assert(es0.skip(i as int).len() == 0);
    }
    Ok(out)
}

/// Law: a disable-secret-version request survives the wire: decoding its encoding gives back the
/// same value, field for field.
pub proof fn lemma_disable_secret_version_request_round_trip(v: crate::model::DisableSecretVersionRequestView)
    requires
        v.wf(),
    ensures
        dec_disable_secret_version_request(enc_disable_secret_version_request(v)) == Some(v),
{
    reveal_strlit("name");
    reveal_strlit("etag");
    assert(("name"@).len() == 4);
    assert(("etag"@).len() == 4);
    assert(("name"@)[0] == 'n' && ("etag"@)[0] == 'e');
    assert("name"@ != "etag"@);
    let a0 = crate::model::DisableSecretVersionRequestView::default_v();
    let s1 = seq![("name"@, JsonView::Str(v.name))];
    let s2 = seq![("etag"@, JsonView::Str(v.etag))];
    let t2 = s2;
    let t1 = s1 + t2;
    assert(enc_disable_secret_version_request_entries(v) =~= t1);
    let a1 = crate::model::DisableSecretVersionRequestView { name: v.name, ..a0 };
    let a2 = crate::model::DisableSecretVersionRequestView { etag: v.etag, ..a1 };
    {
        assert(dec_disable_secret_version_request_field(a0, "name"@, JsonView::Str(v.name)) == Some(a1));
        assert(s1.len() == 1);
        assert(s1.skip(1).len() == 0);
        assert(dec_disable_secret_version_request_entries(s1.skip(1), a1) == Some(a1));
        assert(dec_disable_secret_version_request_entries(s1, a0) == Some(a1));
    }
    {
        assert(dec_disable_secret_version_request_field(a1, "etag"@, JsonView::Str(v.etag)) == Some(a2));
        assert(s2.len() == 1);
        assert(s2.skip(1).len() == 0);
        assert(dec_disable_secret_version_request_entries(s2.skip(1), a2) == Some(a2));
        assert(dec_disable_secret_version_request_entries(s2, a1) == Some(a2));
    }
    lemma_dec_disable_secret_version_request_entries_concat(s1, t2, a0);
    assert(dec_disable_secret_version_request_entries(t1, a0) == dec_disable_secret_version_request_entries(t2, a1));
    assert(dec_disable_secret_version_request_entries(t2, a1) == Some(a2));
    assert(a2 == v);
    assert(dec_disable_secret_version_request_entries(enc_disable_secret_version_request_entries(v), a0) == Some(v));
}

/// The wire entries of an enable-secret-version request, in schema order.
pub open spec fn enc_enable_secret_version_request_entries(v: crate::model::EnableSecretVersionRequestView) -> Seq<(Seq<char>, JsonView)> {
    seq![("name"@, JsonView::Str(v.name))]
        + seq![("etag"@, JsonView::Str(v.etag))]
}

/// The wire form of an enable-secret-version request.
pub open spec fn enc_enable_secret_version_request(v: crate::model::EnableSecretVersionRequestView) -> JsonView {
    JsonView::Obj(enc_enable_secret_version_request_entries(v))
}

/// One decoding step of an enable-secret-version request: a known key fills its field, null
/// counts as absent, an unknown key is skipped.
pub open spec fn dec_enable_secret_version_request_field(acc: crate::model::EnableSecretVersionRequestView, key: Seq<char>, val: JsonView) -> Option<crate::model::EnableSecretVersionRequestView> {
    if key == "name"@ {
        if val is Null {
            Some(acc)
        } else {
            match field_str(val) {
                Some(s) => Some(crate::model::EnableSecretVersionRequestView { name: s, ..acc }),
                None => None,
            }
        }
    } else if key == "etag"@ {
        if val is Null {
            Some(acc)
        } else {
            match field_str(val) {
                Some(s) => Some(crate::model::EnableSecretVersionRequestView { etag: s, ..acc }),
                None => None,
            }
        }
    } else {
        Some(acc)
    }
}

/// Decoding over the entries of an enable-secret-version request, entry by entry.
pub open spec fn dec_enable_secret_version_request_entries(es: Seq<(Seq<char>, JsonView)>, acc: crate::model::EnableSecretVersionRequestView) -> Option<crate::model::EnableSecretVersionRequestView>
    decreases es.len(),
{
    if es.len() == 0 {
        Some(acc)
    } else {
        match dec_enable_secret_version_request_field(acc, es[0].0, es[0].1) {
            Some(a2) => dec_enable_secret_version_request_entries(es.skip(1), a2),
            None => None,
        }
    }
}

/// The value of an enable-secret-version request a wire value denotes, starting from the default.
pub open spec fn dec_enable_secret_version_request(j: JsonView) -> Option<crate::model::EnableSecretVersionRequestView> {
    match j {
        JsonView::Obj(es) => dec_enable_secret_version_request_entries(es, crate::model::EnableSecretVersionRequestView::default_v()),
        _ => None,
    }
}

/// Decoding distributes over concatenated entry lists.
proof fn lemma_dec_enable_secret_version_request_entries_concat(
    a: Seq<(Seq<char>, JsonView)>,
    b: Seq<(Seq<char>, JsonView)>,
    acc: crate::model::EnableSecretVersionRequestView,
)
    ensures
        dec_enable_secret_version_request_entries(a + b, acc) == match dec_enable_secret_version_request_entries(a, acc) {
            Some(m) => dec_enable_secret_version_request_entries(b, m),
            None => None::<crate::model::EnableSecretVersionRequestView>,
        },
    decreases a.len(),
{
    if a.len() == 0 {
        assert(a + b =~= b);
    } else {
        assert((a + b)[0] == a[0]);
        match dec_enable_secret_version_request_field(acc, a[0].0, a[0].1) {
            Some(m) => {
                lemma_dec_enable_secret_version_request_entries_concat(a.skip(1), b, m);
                assert((a + b).skip(1) =~= a.skip(1) + b);
            },
            None => {},
        }
    }
}

/// Encodes an enable-secret-version request in its wire form.
pub fn encode_enable_secret_version_request(v: &crate::model::EnableSecretVersionRequest) -> (r: Json)
    requires
        v@.wf(),
    ensures
        r@ == enc_enable_secret_version_request(v@),
{
    let ghost vv = v@;
    let mut es: Vec<(String, Json)> = Vec::new();
    let ghost mut expect: Seq<(Seq<char>, JsonView)> = Seq::empty();
    proof {
        assert(entries_view(es) =~= expect);
    }
        es.push(("name".to_owned(), Json::Str(v.name.clone())));
        proof {
            expect = expect + seq![("name"@, JsonView::Str(vv.name))];
            assert(entries_view(es) =~= expect);
        }
        es.push(("etag".to_owned(), Json::Str(v.etag.clone())));
        proof {
            expect = expect + seq![("etag"@, JsonView::Str(vv.etag))];
            assert(entries_view(es) =~= expect);
        }
    let r = Json::Obj(es);
    proof {
        lemma_obj_view(r->Obj_0);
        assert(expect =~= enc_enable_secret_version_request_entries(vv));
    }
    r
}

/// Decodes an enable-secret-version request from its wire form: unknown keys are skipped, null
/// values and missing fields leave the default, and a value of the wrong
/// shape for its key is a serialization error naming the field.
pub fn decode_enable_secret_version_request(v: &Json) -> (r: Result<crate::model::EnableSecretVersionRequest, Error>)
    ensures
        match r {
            Ok(out) => dec_enable_secret_version_request(v@) == Some(out@),
            Err(e) => dec_enable_secret_version_request(v@) is None && e.kind == ErrorKind::Serde,
        },
{
    let es = match v {
        Json::Obj(es) => es,
        _ => {
            return Err(shape_error("EnableSecretVersionRequest"));
        },
    };
    let ghost es0 = entries_view(*es);
    proof {
        lemma_obj_view(*es);
    }
    let mut out = crate::model::EnableSecretVersionRequest::default();
    let mut i: usize = 0;
    proof {
        assert(es0.skip(0) =~= es0);
    }
    while i < es.len()
        invariant
            i <= es@.len(),
            es0 == entries_view(*es),
            es0.len() == es@.len(),
            v@ == JsonView::Obj(es0),
            dec_enable_secret_version_request_entries(es0, crate::model::EnableSecretVersionRequestView::default_v()) == dec_enable_secret_version_request_entries(
                es0.skip(i as int),
                out@,
            ),
        decreases es@.len() - i,
    {
        let ghost pre = es0.skip(i as int);
        proof {
            assert(pre[0] == es0[i as int]);
            assert(es0[i as int] == (es@[i as int].0@, es@[i as int].1@));
            assert(pre.skip(1) =~= es0.skip(i as int + 1));
        }
        let key = &es[i].0;
        let val = &es[i].1;
        if str_eq(key.as_str(), "name") {
                if let Json::Null = val {
                } else {
                    match jv_str(val) {
                    Ok(x) => {
                        out = crate::model::EnableSecretVersionRequest { name: x, ..out };
                    },
                    Err(_) => {
                        return Err(field_error("EnableSecretVersionRequest", "name"));
                    },
                }
                }
            } else if str_eq(key.as_str(), "etag") {
                if let Json::Null = val {
                } else {
                    match jv_str(val) {
                    Ok(x) => {
                        out = crate::model::EnableSecretVersionRequest { etag: x, ..out };
                    },
                    Err(_) => {
                        return Err(field_error("EnableSecretVersionRequest", "etag"));
                    },
                }
                }
            }
        i += 1;
    }
    proof {
        assert(es0.skip(i as int).len() == 0);
    }
    Ok(out)
}

/// Law: an enable-secret-version request survives the wire: decoding its encoding gives back the
/// same value, field for field.
pub proof fn lemma_enable_secret_version_request_round_trip(v: crate::model::EnableSecretVersionRequestView)
    requires
        v.wf(),
    ensures
        dec_enable_secret_version_request(enc_enable_secret_version_request(v)) == Some(v),
{
    reveal_strlit("name");
    reveal_strlit("etag");
    assert(("name"@).len() == 4);
    assert(("etag"@).len() == 4);
    assert(("name"@)[0] == 'n' && ("etag"@)[0] == 'e');
    assert("name"@ != "etag"@);
    let a0 = crate::model::EnableSecretVersionRequestView::default_v();
    let s1 = seq![("name"@, JsonView::Str(v.name))];
    let s2 = seq![("etag"@, JsonView::Str(v.etag))];
    let t2 = s2;
    let t1 = s1 + t2;
    assert(enc_enable_secret_version_request_entries(v) =~= t1);
    let a1 = crate::model::EnableSecretVersionRequestView { name: v.name, ..a0 };
    let a2 = crate::model::EnableSecretVersionRequestView { etag: v.etag, ..a1 };
    {
        assert(dec_enable_secret_version_request_field(a0, "name"@, JsonView::Str(v.name)) == Some(a1));
        assert(s1.len() == 1);
        assert(s1.skip(1).len() == 0);
        assert(dec_enable_secret_version_request_entries(s1.skip(1), a1) == Some(a1));
        assert(dec_enable_secret_version_request_entries(s1, a0) == Some(a1));
    }
    {
        assert(dec_enable_secret_version_request_field(a1, "etag"@, JsonView::Str(v.etag)) == Some(a2));
        assert(s2.len() == 1);
        assert(s2.skip(1).len() == 0);
        assert(dec_enable_secret_version_request_entries(s2.skip(1), a2) == Some(a2));
        assert(dec_enable_secret_version_request_entries(s2, a1) == Some(a2));
    }
    lemma_dec_enable_secret_version_request_entries_concat(s1, t2, a0);
    assert(dec_enable_secret_version_request_entries(t1, a0) == dec_enable_secret_version_request_entries(t2, a1));
    assert(dec_enable_secret_version_request_entries(t2, a1) == Some(a2));
    assert(a2 == v);
    assert(dec_enable_secret_version_request_entries(enc_enable_secret_version_request_entries(v), a0) == Some(v));
}

/// The wire entries of a destroy-secret-version request, in schema order.
pub open spec fn enc_destroy_secret_version_request_entries(v: crate::model::DestroySecretVersionRequestView) -> Seq<(Seq<char>, JsonView)> {
    seq![("name"@, JsonView::Str(v.name))]
        + seq![("etag"@, JsonView::Str(v.etag))]
}

/// The wire form of a destroy-secret-version request.
pub open spec fn enc_destroy_secret_version_request(v: crate::model::DestroySecretVersionRequestView) -> JsonView {
    JsonView::Obj(enc_destroy_secret_version_request_entries(v))
}

/// One decoding step of a destroy-secret-version request: a known key fills its field, null
/// counts as absent, an unknown key is skipped.
pub open spec fn dec_destroy_secret_version_request_field(acc: crate::model::DestroySecretVersionRequestView, key: Seq<char>, val: JsonView) -> Option<crate::model::DestroySecretVersionRequestView> {
    if key == "name"@ {
        if val is Null {
            Some(acc)
        } else {
            match field_str(val) {
                Some(s) => Some(crate::model::DestroySecretVersionRequestView { name: s, ..acc }),
                None => None,
            }
        }
    } else if key == "etag"@ {
        if val is Null {
            Some(acc)
        } else {
            match field_str(val) {
                Some(s) => Some(crate::model::DestroySecretVersionRequestView { etag: s, ..acc }),
                None => None,
            }
        }
    } else {
        Some(acc)
    }
}

/// Decoding over the entries of a destroy-secret-version request, entry by entry.
pub open spec fn dec_destroy_secret_version_request_entries(es: Seq<(Seq<char>, JsonView)>, acc: crate::model::DestroySecretVersionRequestView) -> Option<crate::model::DestroySecretVersionRequestView>
    decreases es.len(),
{
    if es.len() == 0 {
        Some(acc)
    } else {
        match dec_destroy_secret_version_request_field(acc, es[0].0, es[0].1) {
            Some(a2) => dec_destroy_secret_version_request_entries(es.skip(1), a2),
            None => None,
        }
    }
}

/// The value of a destroy-secret-version request a wire value denotes, starting from the default.
pub open spec fn dec_destroy_secret_version_request(j: JsonView) -> Option<crate::model::DestroySecretVersionRequestView> {
    match j {
        JsonView::Obj(es) => dec_destroy_secret_version_request_entries(es, crate::model::DestroySecretVersionRequestView::default_v()),
        _ => None,
    }
}

/// Decoding distributes over concatenated entry lists.
proof fn lemma_dec_destroy_secret_version_request_entries_concat(
    a: Seq<(Seq<char>, JsonView)>,
    b: Seq<(Seq<char>, JsonView)>,
    acc: crate::model::DestroySecretVersionRequestView,
)
    ensures
        dec_destroy_secret_version_request_entries(a + b, acc) == match dec_destroy_secret_version_request_entries(a, acc) {
            Some(m) => dec_destroy_secret_version_request_entries(b, m),
            None => None::<crate::model::DestroySecretVersionRequestView>,
        },
    decreases a.len(),
{
    if a.len() == 0 {
        assert(a + b =~= b);
    } else {
        assert((a + b)[0] == a[0]);
        match dec_destroy_secret_version_request_field(acc, a[0].0, a[0].1) {
            Some(m) => {
                lemma_dec_destroy_secret_version_request_entries_concat(a.skip(1), b, m);
                assert((a + b).skip(1) =~= a.skip(1) + b);
            },
            None => {},
        }
    }
}

/// Encodes a destroy-secret-version request in its wire form.
pub fn encode_destroy_secret_version_request(v: &crate::model::DestroySecretVersionRequest) -> (r: Json)
    requires
        v@.wf(),
    ensures
        r@ == enc_destroy_secret_version_request(v@),
{
    let ghost vv = v@;
    let mut es: Vec<(String, Json)> = Vec::new();
    let ghost mut expect: Seq<(Seq<char>, JsonView)> = Seq::empty();
    proof {
        assert(entries_view(es) =~= expect);
    }
        es.push(("name".to_owned(), Json::Str(v.name.clone())));
        proof {
            expect = expect + seq![("name"@, JsonView::Str(vv.name))];
            assert(entries_view(es) =~= expect);
        }
        es.push(("etag".to_owned(), Json::Str(v.etag.clone())));
        proof {
            expect = expect + seq![("etag"@, JsonView::Str(vv.etag))];
            assert(entries_view(es) =~= expect);
        }
    let r = Json::Obj(es);
    proof {
        lemma_obj_view(r->Obj_0);
        assert(expect =~= enc_destroy_secret_version_request_entries(vv));
    }
    r
}

/// Decodes a destroy-secret-version request from its wire form: unknown keys are skipped, null
/// values and missing fields leave the default, and a value of the wrong
/// shape for its key is a serialization error naming the field.
pub fn decode_destroy_secret_version_request(v: &Json) -> (r: Result<crate::model::DestroySecretVersionRequest, Error>)
    ensures
        match r {
            Ok(out) => dec_destroy_secret_version_request(v@) == Some(out@),
            Err(e) => dec_destroy_secret_version_request(v@) is None && e.kind == ErrorKind::Serde,
        },
{
    let es = match v {
        Json::Obj(es) => es,
        _ => {
            return Err(shape_error("DestroySecretVersionRequest"));
        },
    };
    let ghost es0 = entries_view(*es);
    proof {
        lemma_obj_view(*es);
    }
    let mut out = crate::model::DestroySecretVersionRequest::default();
    let mut i: usize = 0;
    proof {
        assert(es0.skip(0) =~= es0);
    }
    while i < es.len()
        invariant
            i <= es@.len(),
            es0 == entries_view(*es),
            es0.len() == es@.len(),
            v@ == JsonView::Obj(es0),
            dec_destroy_secret_version_request_entries(es0, crate::model::DestroySecretVersionRequestView::default_v()) == dec_destroy_secret_version_request_entries(
                es0.skip(i as int),
                out@,
            ),
        decreases es@.len() - i,
    {
        let ghost pre = es0.skip(i as int);
        proof {
            assert(pre[0] == es0[i as int]);
            assert(es0[i as int] == (es@[i as int].0@, es@[i as int].1@));
            assert(pre.skip(1) =~= es0.skip(i as int + 1));
        }
        let key = &es[i].0;
        let val = &es[i].1;
        if str_eq(key.as_str(), "name") {
                if let Json::Null = val {
                } else {
                    match jv_str(val) {
                    Ok(x) => {
                        out = crate::model::DestroySecretVersionRequest { name: x, ..out };
                    },
                    Err(_) => {
                        return Err(field_error("DestroySecretVersionRequest", "name"));
                    },
                }
                }
            } else if str_eq(key.as_str(), "etag") {
                if let Json::Null = val {
                } else {
                    match jv_str(val) {
                    Ok(x) => {
                        out = crate::model::DestroySecretVersionRequest { etag: x, ..out };
                    },
                    Err(_) => {
                        return Err(field_error("DestroySecretVersionRequest", "etag"));
                    },
                }
                }
            }
        i += 1;
    }
    proof {
        assert(es0.skip(i as int).len() == 0);
    }
    Ok(out)
}

/// Law: a destroy-secret-version request survives the wire: decoding its encoding gives back the
/// same value, field for field.
pub proof fn lemma_destroy_secret_version_request_round_trip(v: crate::model::DestroySecretVersionRequestView)
    requires
        v.wf(),
    ensures
        dec_destroy_secret_version_request(enc_destroy_secret_version_request(v)) == Some(v),
{
    reveal_strlit("name");
    reveal_strlit("etag");
    assert(("name"@).len() == 4);
    assert(("etag"@).len() == 4);
    assert(("name"@)[0] == 'n' && ("etag"@)[0] == 'e');
    assert("name"@ != "etag"@);
    let a0 = crate::model::DestroySecretVersionRequestView::default_v();
    let s1 = seq![("name"@, JsonView::Str(v.name))];
    let s2 = seq![("etag"@, JsonView::Str(v.etag))];
    let t2 = s2;
    let t1 = s1 + t2;
    assert(enc_destroy_secret_version_request_entries(v) =~= t1);
    let a1 = crate::model::DestroySecretVersionRequestView { name: v.name, ..a0 };
    let a2 = crate::model::DestroySecretVersionRequestView { etag: v.etag, ..a1 };
    {
        assert(dec_destroy_secret_version_request_field(a0, "name"@, JsonView::Str(v.name)) == Some(a1));
        assert(s1.len() == 1);
        assert(s1.skip(1).len() == 0);
        assert(dec_destroy_secret_version_request_entries(s1.skip(1), a1) == Some(a1));
        assert(dec_destroy_secret_version_request_entries(s1, a0) == Some(a1));
    }
    {
        assert(dec_destroy_secret_version_request_field(a1, "etag"@, JsonView::Str(v.etag)) == Some(a2));
        assert(s2.len() == 1);
        assert(s2.skip(1).len() == 0);
        assert(dec_destroy_secret_version_request_entries(s2.skip(1), a2) == Some(a2));
        assert(dec_destroy_secret_version_request_entries(s2, a1) == Some(a2));
    }
    lemma_dec_destroy_secret_version_request_entries_concat(s1, t2, a0);
    assert(dec_destroy_secret_version_request_entries(t1, a0) == dec_destroy_secret_version_request_entries(t2, a1));
    assert(dec_destroy_secret_version_request_entries(t2, a1) == Some(a2));
    assert(a2 == v);
    assert(dec_destroy_secret_version_request_entries(enc_destroy_secret_version_request_entries(v), a0) == Some(v));
}

} // verus!

verus! {

/// Law: a record's empty mapping is omitted from the wire form outright,
/// while a one-entry mapping is emitted as exactly that entry: the encoded
/// secret has no `labels` key at all when the mapping is empty, and the
/// mapping object with exactly the one entry when it has one.
#[verifier::rlimit(100)]
pub proof fn lemma_map_omission(v: crate::model::SecretView)
    ensures
        v.labels.len() == 0 ==> !obj_has_key(enc_secret_entries(v), "labels"@),
        v.labels.len() == 1 ==> obj_lookup(enc_secret_entries(v), "labels"@) == Some(
            JsonView::Obj(seq![(v.labels[0].0, JsonView::Str(v.labels[0].1))]),
        ),
{
    reveal_strlit("versionDestroyTtl");
    reveal_strlit("etag");
    reveal_strlit("labels");
    reveal_strlit("name");
    reveal_strlit("versionAliases");
    reveal_strlit("customerManagedEncryption");
    reveal_strlit("createTime");
    reveal_strlit("replication");
    reveal_strlit("rotation");
    reveal_strlit("annotations");
    reveal_strlit("topics");
    reveal_strlit("expiration");
    assert(("name"@).len() == 4);
    assert(("labels"@).len() == 6);
    assert("name"@ != "labels"@);
    assert(("replication"@).len() == 11);
    assert(("labels"@).len() == 6);
    assert("replication"@ != "labels"@);
    assert(("createTime"@).len() == 10);
    assert(("labels"@).len() == 6);
    assert("createTime"@ != "labels"@);
    assert(("topics"@).len() == 6);
    assert(("labels"@).len() == 6);
    assert(("topics"@)[0] == 't' && ("labels"@)[0] == 'l');
    assert("topics"@ != "labels"@);
    assert(("etag"@).len() == 4);
    assert(("labels"@).len() == 6);
    assert("etag"@ != "labels"@);
    assert(("rotation"@).len() == 8);
    assert(("labels"@).len() == 6);
    assert("rotation"@ != "labels"@);
    assert(("versionAliases"@).len() == 14);
    assert(("labels"@).len() == 6);
    assert("versionAliases"@ != "labels"@);
    assert(("annotations"@).len() == 11);
    assert(("labels"@).len() == 6);
    assert("annotations"@ != "labels"@);
    assert(("versionDestroyTtl"@).len() == 17);
    assert(("labels"@).len() == 6);
    assert("versionDestroyTtl"@ != "labels"@);
    assert(("customerManagedEncryption"@).len() == 25);
    assert(("labels"@).len() == 6);
    assert("customerManagedEncryption"@ != "labels"@);
    assert(("expiration"@).len() == 10);
    assert(("labels"@).len() == 6);
    assert("expiration"@ != "labels"@);
    lemma_secret_entries_assoc(v);
    let s1 = seq![("name"@, JsonView::Str(v.name))];
    let s2 = (match v.replication { Some(x) => seq![("replication"@, enc_replication(x))], None => Seq::empty() });
    let s3 = (match v.create_time { Some(t) => seq![("createTime"@, JsonView::Str(timestamp_text(t.seconds, t.nanos)))], None => Seq::empty() });
    let s4 = (if v.labels.len() == 0 { Seq::empty() } else { seq![("labels"@, JsonView::Obj(enc_strmap_entries(v.labels)))] });
    let s5 = seq![("topics"@, JsonView::Arr(Seq::new(v.topics.len(), |i: int| enc_topic(v.topics[i]))))];
    let s6 = seq![("etag"@, JsonView::Str(v.etag))];
    let s7 = (match v.rotation { Some(x) => seq![("rotation"@, enc_rotation(x))], None => Seq::empty() });
    let s8 = (if v.version_aliases.len() == 0 { Seq::empty() } else { seq![("versionAliases"@, JsonView::Obj(enc_i64map_entries(v.version_aliases)))] });
    let s9 = (if v.annotations.len() == 0 { Seq::empty() } else { seq![("annotations"@, JsonView::Obj(enc_strmap_entries(v.annotations)))] });
    let s10 = (match v.version_destroy_ttl { Some(d) => seq![("versionDestroyTtl"@, JsonView::Str(duration_text(d.seconds, d.nanos)))], None => Seq::empty() });
    let s11 = (match v.customer_managed_encryption { Some(x) => seq![("customerManagedEncryption"@, enc_customer_managed_encryption(x))], None => Seq::empty() });
    let s12 = (match v.expiration { Some(x) => seq![("expiration"@, enc_expiration(x))], None => Seq::empty() });
    let t12 = s12;
    let t11 = s11 + t12;
    let t10 = s10 + t11;
    let t9 = s9 + t10;
    let t8 = s8 + t9;
    let t7 = s7 + t8;
    let t6 = s6 + t7;
    let t5 = s5 + t6;
    let t4 = s4 + t5;
    let t3 = s3 + t4;
    let t2 = s2 + t3;
    let t1 = s1 + t2;
    assert(enc_secret_entries(v) == t1);
    assert(!obj_has_key(s1, "labels"@)) by {
        assert(s1[0].0 != "labels"@);
        assert(s1.skip(1).len() == 0);
                assert(obj_lookup(s1.skip(1), "labels"@) is None);
                assert(obj_lookup(s1, "labels"@) is None);
    }
    assert(!obj_has_key(s2, "labels"@)) by {
        match v.replication {
            Some(_) => {
                assert(s2[0].0 != "labels"@);
                assert(s2.skip(1).len() == 0);
                assert(obj_lookup(s2.skip(1), "labels"@) is None);
                assert(obj_lookup(s2, "labels"@) is None);
            },
            None => {
                assert(s2.len() == 0);
                assert(obj_lookup(s2, "labels"@) is None);
            },
        }
    }
    assert(!obj_has_key(s3, "labels"@)) by {
        match v.create_time {
            Some(_) => {
                assert(s3[0].0 != "labels"@);
                assert(s3.skip(1).len() == 0);
                assert(obj_lookup(s3.skip(1), "labels"@) is None);
                assert(obj_lookup(s3, "labels"@) is None);
            },
            None => {
                assert(s3.len() == 0);
                assert(obj_lookup(s3, "labels"@) is None);
            },
        }
    }
    assert(!obj_has_key(s5, "labels"@)) by {
        assert(s5[0].0 != "labels"@);
        assert(s5.skip(1).len() == 0);
                assert(obj_lookup(s5.skip(1), "labels"@) is None);
                assert(obj_lookup(s5, "labels"@) is None);
    }
    assert(!obj_has_key(s6, "labels"@)) by {
        assert(s6[0].0 != "labels"@);
        assert(s6.skip(1).len() == 0);
                assert(obj_lookup(s6.skip(1), "labels"@) is None);
                assert(obj_lookup(s6, "labels"@) is None);
    }
    assert(!obj_has_key(s7, "labels"@)) by {
        match v.rotation {
            Some(_) => {
                assert(s7[0].0 != "labels"@);
                assert(s7.skip(1).len() == 0);
                assert(obj_lookup(s7.skip(1), "labels"@) is None);
                assert(obj_lookup(s7, "labels"@) is None);
            },
            None => {
                assert(s7.len() == 0);
                assert(obj_lookup(s7, "labels"@) is None);
            },
        }
    }
    assert(!obj_has_key(s8, "labels"@)) by {
        if v.version_aliases.len() > 0 {
            assert(s8[0].0 != "labels"@);
            assert(s8.skip(1).len() == 0);
                assert(obj_lookup(s8.skip(1), "labels"@) is None);
                assert(obj_lookup(s8, "labels"@) is None);
        } else {
            assert(s8.len() == 0);
                assert(obj_lookup(s8, "labels"@) is None);
        }
    }
    assert(!obj_has_key(s9, "labels"@)) by {
        if v.annotations.len() > 0 {
            assert(s9[0].0 != "labels"@);
            assert(s9.skip(1).len() == 0);
                assert(obj_lookup(s9.skip(1), "labels"@) is None);
                assert(obj_lookup(s9, "labels"@) is None);
        } else {
            assert(s9.len() == 0);
                assert(obj_lookup(s9, "labels"@) is None);
        }
    }
    assert(!obj_has_key(s10, "labels"@)) by {
        match v.version_destroy_ttl {
            Some(_) => {
                assert(s10[0].0 != "labels"@);
                assert(s10.skip(1).len() == 0);
                assert(obj_lookup(s10.skip(1), "labels"@) is None);
                assert(obj_lookup(s10, "labels"@) is None);
            },
            None => {
                assert(s10.len() == 0);
                assert(obj_lookup(s10, "labels"@) is None);
            },
        }
    }
    assert(!obj_has_key(s11, "labels"@)) by {
        match v.customer_managed_encryption {
            Some(_) => {
                assert(s11[0].0 != "labels"@);
                assert(s11.skip(1).len() == 0);
                assert(obj_lookup(s11.skip(1), "labels"@) is None);
                assert(obj_lookup(s11, "labels"@) is None);
            },
            None => {
                assert(s11.len() == 0);
                assert(obj_lookup(s11, "labels"@) is None);
            },
        }
    }
    assert(!obj_has_key(s12, "labels"@)) by {
        match v.expiration {
            Some(_) => {
                assert(s12[0].0 != "labels"@);
                assert(s12.skip(1).len() == 0);
                assert(obj_lookup(s12.skip(1), "labels"@) is None);
                assert(obj_lookup(s12, "labels"@) is None);
            },
            None => {
                assert(s12.len() == 0);
                assert(obj_lookup(s12, "labels"@) is None);
            },
        }
    }
    crate::json::lemma_obj_lookup_concat(s1, t2, "labels"@);
    assert(obj_lookup(t1, "labels"@) == obj_lookup(t2, "labels"@));
    crate::json::lemma_obj_lookup_concat(s2, t3, "labels"@);
    assert(obj_lookup(t2, "labels"@) == obj_lookup(t3, "labels"@));
    crate::json::lemma_obj_lookup_concat(s3, t4, "labels"@);
    assert(obj_lookup(t3, "labels"@) == obj_lookup(t4, "labels"@));
    crate::json::lemma_obj_lookup_concat(s4, t5, "labels"@);
    if v.labels.len() == 0 {
        assert(s4.len() == 0);
        assert(!obj_has_key(s4, "labels"@));
        assert(obj_lookup(t4, "labels"@) == obj_lookup(t5, "labels"@));
        crate::json::lemma_obj_lookup_concat(s5, t6, "labels"@);
        assert(obj_lookup(t5, "labels"@) == obj_lookup(t6, "labels"@));
        crate::json::lemma_obj_lookup_concat(s6, t7, "labels"@);
        assert(obj_lookup(t6, "labels"@) == obj_lookup(t7, "labels"@));
        crate::json::lemma_obj_lookup_concat(s7, t8, "labels"@);
        assert(obj_lookup(t7, "labels"@) == obj_lookup(t8, "labels"@));
        crate::json::lemma_obj_lookup_concat(s8, t9, "labels"@);
        assert(obj_lookup(t8, "labels"@) == obj_lookup(t9, "labels"@));
        crate::json::lemma_obj_lookup_concat(s9, t10, "labels"@);
        assert(obj_lookup(t9, "labels"@) == obj_lookup(t10, "labels"@));
        crate::json::lemma_obj_lookup_concat(s10, t11, "labels"@);
        assert(obj_lookup(t10, "labels"@) == obj_lookup(t11, "labels"@));
        crate::json::lemma_obj_lookup_concat(s11, t12, "labels"@);
        assert(obj_lookup(t11, "labels"@) == obj_lookup(t12, "labels"@));
        assert(obj_lookup(t12, "labels"@) is None) by {
            match v.expiration {
                Some(_) => {
                    assert(t12[0].0 != "labels"@);
                    assert(t12.skip(1).len() == 0);
                    assert(obj_lookup(t12.skip(1), "labels"@) is None);
                },
                None => {
                    assert(t12.len() == 0);
                },
            }
        }
        assert(!obj_has_key(enc_secret_entries(v), "labels"@));
    }
    if v.labels.len() == 1 {
        assert(s4.len() == 1);
        assert(s4[0] == ("labels"@, JsonView::Obj(enc_strmap_entries(v.labels))));
        assert(obj_lookup(s4, "labels"@) == Some(JsonView::Obj(enc_strmap_entries(v.labels))));
        assert(obj_has_key(s4, "labels"@));
        assert(obj_lookup(t4, "labels"@) == Some(JsonView::Obj(enc_strmap_entries(v.labels))));
        assert(enc_strmap_entries(v.labels) =~= seq![(v.labels[0].0, JsonView::Str(v.labels[0].1))]);
    }
}

} // verus!

verus! {

/// Whether `k` is a field key the secret schema knows.
pub open spec fn secret_known_key(k: Seq<char>) -> bool {
    ||| k == "name"@
    ||| k == "replication"@
    ||| k == "createTime"@
    ||| k == "labels"@
    ||| k == "topics"@
    ||| k == "etag"@
    ||| k == "rotation"@
    ||| k == "versionAliases"@
    ||| k == "annotations"@
    ||| k == "versionDestroyTtl"@
    ||| k == "customerManagedEncryption"@
    ||| k == "expiration"@
}

/// An entry with an unknown key never changes the decoding state.
proof fn lemma_secret_entries_skip_unknown(
    es: Seq<(Seq<char>, JsonView)>,
    acc: crate::model::SecretView,
    i: int,
)
    requires
        0 <= i < es.len(),
        !secret_known_key(es[i].0),
    ensures
        dec_secret_entries(es.remove(i), acc) == dec_secret_entries(es, acc),
    decreases es.len(),
{
    if i == 0 {
        assert(dec_secret_field(acc, es[0].0, es[0].1) == Some(acc));
        assert(es.remove(0) =~= es.skip(1));
    } else {
        assert(es.remove(i)[0] == es[0]);
        assert(es.remove(i).len() == es.len() - 1);
        match dec_secret_field(acc, es[0].0, es[0].1) {
            Some(a2) => {
                lemma_secret_entries_skip_unknown(es.skip(1), a2, i - 1);
                assert(es.remove(i).skip(1) =~= es.skip(1).remove(i - 1));
            },
            None => {},
        }
    }
}

/// Law: a decoder tolerates unknown future fields: decoding an object that
/// carries an entry whose key the schema does not know gives exactly the
/// record obtained by decoding the object with that entry removed. Unknown
/// keys are skipped, never rejected and never round-tripped.
pub proof fn lemma_unknown_field_tolerance(es: Seq<(Seq<char>, JsonView)>, i: int)
    requires
        0 <= i < es.len(),
        !secret_known_key(es[i].0),
    ensures
        dec_secret(JsonView::Obj(es)) == dec_secret(JsonView::Obj(es.remove(i))),
{
    lemma_secret_entries_skip_unknown(es, crate::model::SecretView::default_v(), i);
}

/// Law: untagged-union resolution is deterministic and order-dependent.
/// Whenever a wire value structurally matches both alternatives of the
/// replication union (for instance the empty object), decoding always picks
/// the first-declared alternative.
pub proof fn lemma_union_order_dependence(j: JsonView)
    requires
        j matches JsonView::Obj(es) && obj_keys_among(es, "customerManagedEncryption"@)
            && obj_keys_among(es, "replicas"@),
        dec_automatic(j) is Some,
        dec_user_managed(j) is Some,
    ensures
        dec_replication_union(j) == Some(
            crate::model::replication::ReplicationView::Automatic(dec_automatic(j)->Some_0),
        ),
{
}

/// Law: a 64-bit field travels as a decimal string, never as a bare JSON
/// number: a bare number is rejected outright when a string-compatible
/// 64-bit value is expected.
pub proof fn lemma_i64_field_rejects_bare_number(n: i64)
    ensures
        field_i64s(JsonView::Int(n)) is None,
{
}

} // verus!
