//! The JSON projector: a total, deterministic mapping from a decoded schema
//! to a JSON value with a fixed key layout.
//!
//! Every type descriptor projects to an object whose first member is `kind`,
//! a string naming the variant; composite variants add their structural
//! parameters. Contract objects carry the optional keys `init`, `state`
//! (generation 0 only), `event` (generation 3 only) and `entrypoints`
//! (present only when the contract has receive entrypoints), each present
//! exactly when the corresponding schema field is present.
use vstd::prelude::*;

use crate::types::ContractV0;
use crate::types::ContractV0View;
use crate::types::ContractV1;
use crate::types::ContractV1View;
use crate::types::ContractV2;
use crate::types::ContractV2View;
use crate::types::ContractV3;
use crate::types::ContractV3View;
use crate::types::Fields;
use crate::types::FieldsView;
use crate::types::FunctionV1;
use crate::types::FunctionV1View;
use crate::types::FunctionV2;
use crate::types::FunctionV2View;
use crate::types::ModuleSchemaView;
use crate::types::SizeLength;
use crate::types::Type;
use crate::types::TypeView;
use crate::types::VersionedModuleSchema;
use crate::types::entries_view;
use crate::types::named_fields_view;
use crate::types::enum_variants_view;
use crate::types::tagged_variants_view;
use crate::types::unnamed_fields_view;
use crate::types::opt_type_view;
use crate::decode::lemma_named_fields_view;
use crate::decode::lemma_unnamed_fields_view;
use crate::decode::lemma_enum_variants_view;
use crate::decode::lemma_tagged_variants_view;

verus! {

/// A JSON value: strings hold UTF-8 bytes, numbers are unsigned, and objects
/// keep their members in insertion order.
#[derive(Debug, PartialEq, Eq)]
pub enum Json {
    Str(Vec<u8>),
    Num(u64),
    Arr(Vec<Json>),
    Obj(Vec<(Vec<u8>, Json)>),
}

/// Mathematical mirror of `Json`.
pub enum JsonView {
    Str(Seq<u8>),
    Num(u64),
    Arr(Seq<JsonView>),
    Obj(Seq<(Seq<u8>, JsonView)>),
}

/// The view of a `Json` value.
pub open spec fn json_view(j: Json) -> JsonView
    decreases j,
{
    match j {
        Json::Str(s) => JsonView::Str(s@),
        Json::Num(n) => JsonView::Num(n),
        Json::Arr(items) => JsonView::Arr(arr_view(items@)),
        Json::Obj(members) => JsonView::Obj(obj_view(members@)),
    }
}

/// Element-wise view of a JSON array.
pub open spec fn arr_view(s: Seq<Json>) -> Seq<JsonView>
    decreases s,
{
    if s.len() == 0 {
        Seq::empty()
    } else {
        arr_view(s.drop_last()).push(json_view(s.last()))
    }
}

/// Element-wise view of a JSON object member list.
pub open spec fn obj_view(s: Seq<(Vec<u8>, Json)>) -> Seq<(Seq<u8>, JsonView)>
    decreases s,
{
    if s.len() == 0 {
        Seq::empty()
    } else {
        obj_view(s.drop_last()).push((s.last().0@, json_view(s.last().1)))
    }
}

impl View for Json {
    type V = JsonView;

    open spec fn view(&self) -> JsonView {
        json_view(*self)
    }
}

/// Element-wise description of `arr_view`.
pub proof fn lemma_arr_view(s: Seq<Json>)
    ensures
        arr_view(s).len() == s.len(),
        forall|i: int| 0 <= i < s.len() ==> arr_view(s)[i] == json_view(s[i]),
    decreases s.len(),
{
    if s.len() > 0 {
        lemma_arr_view(s.drop_last());
        assert forall|i: int| 0 <= i < s.len() implies arr_view(s)[i] == json_view(s[i]) by {
            if i < s.len() - 1 {
                assert(s.drop_last()[i] == s[i]);
            }
        }
    }
}

/// Element-wise description of `obj_view`.
pub proof fn lemma_obj_view(s: Seq<(Vec<u8>, Json)>)
    ensures
        obj_view(s).len() == s.len(),
        forall|i: int| 0 <= i < s.len() ==> obj_view(s)[i] == (s[i].0@, json_view(s[i].1)),
    decreases s.len(),
{
    if s.len() > 0 {
        lemma_obj_view(s.drop_last());
        assert forall|i: int|
            0 <= i < s.len() implies obj_view(s)[i] == (s[i].0@, json_view(s[i].1)) by {
            if i < s.len() - 1 {
                assert(s.drop_last()[i] == s[i]);
            }
        }
    }
}

/// The bytes of `"kind"`.
pub open spec fn kw_kind() -> Seq<u8> {
    seq![107u8, 105u8, 110u8, 100u8]
}

/// The bytes of `"kind"`.
pub fn kb_kind() -> (r: Vec<u8>)
    ensures
        r@ == kw_kind(),
{
    vec![107u8, 105u8, 110u8, 100u8]
}

/// The bytes of `"first"`.
pub open spec fn kw_first() -> Seq<u8> {
    seq![102u8, 105u8, 114u8, 115u8, 116u8]
}

/// The bytes of `"first"`.
pub fn kb_first() -> (r: Vec<u8>)
    ensures
        r@ == kw_first(),
{
    vec![102u8, 105u8, 114u8, 115u8, 116u8]
}

/// The bytes of `"second"`.
pub open spec fn kw_second() -> Seq<u8> {
    seq![115u8, 101u8, 99u8, 111u8, 110u8, 100u8]
}

/// The bytes of `"second"`.
pub fn kb_second() -> (r: Vec<u8>)
    ensures
        r@ == kw_second(),
{
    vec![115u8, 101u8, 99u8, 111u8, 110u8, 100u8]
}

/// The bytes of `"item"`.
pub open spec fn kw_item() -> Seq<u8> {
    seq![105u8, 116u8, 101u8, 109u8]
}

/// The bytes of `"item"`.
pub fn kb_item() -> (r: Vec<u8>)
    ensures
        r@ == kw_item(),
{
    vec![105u8, 116u8, 101u8, 109u8]
}

/// The bytes of `"key"`.
pub open spec fn kw_key() -> Seq<u8> {
    seq![107u8, 101u8, 121u8]
}

/// The bytes of `"key"`.
pub fn kb_key() -> (r: Vec<u8>)
    ensures
        r@ == kw_key(),
{
    vec![107u8, 101u8, 121u8]
}

/// The bytes of `"value"`.
pub open spec fn kw_value() -> Seq<u8> {
    seq![118u8, 97u8, 108u8, 117u8, 101u8]
}

/// The bytes of `"value"`.
pub fn kb_value() -> (r: Vec<u8>)
    ensures
        r@ == kw_value(),
{
    vec![118u8, 97u8, 108u8, 117u8, 101u8]
}

/// The bytes of `"length"`.
pub open spec fn kw_length() -> Seq<u8> {
    seq![108u8, 101u8, 110u8, 103u8, 116u8, 104u8]
}

/// The bytes of `"length"`.
pub fn kb_length() -> (r: Vec<u8>)
    ensures
        r@ == kw_length(),
{
    vec![108u8, 101u8, 110u8, 103u8, 116u8, 104u8]
}

/// The bytes of `"sizeLength"`.
pub open spec fn kw_sizeLength() -> Seq<u8> {
    seq![115u8, 105u8, 122u8, 101u8, 76u8, 101u8, 110u8, 103u8, 116u8, 104u8]
}

/// The bytes of `"sizeLength"`.
pub fn kb_sizeLength() -> (r: Vec<u8>)
    ensures
        r@ == kw_sizeLength(),
{
    vec![115u8, 105u8, 122u8, 101u8, 76u8, 101u8, 110u8, 103u8, 116u8, 104u8]
}

/// The bytes of `"maxLength"`.
pub open spec fn kw_maxLength() -> Seq<u8> {
    seq![109u8, 97u8, 120u8, 76u8, 101u8, 110u8, 103u8, 116u8, 104u8]
}

/// The bytes of `"maxLength"`.
pub fn kb_maxLength() -> (r: Vec<u8>)
    ensures
        r@ == kw_maxLength(),
{
    vec![109u8, 97u8, 120u8, 76u8, 101u8, 110u8, 103u8, 116u8, 104u8]
}

/// The bytes of `"fields"`.
pub open spec fn kw_fields() -> Seq<u8> {
    seq![102u8, 105u8, 101u8, 108u8, 100u8, 115u8]
}

/// The bytes of `"fields"`.
pub fn kb_fields() -> (r: Vec<u8>)
    ensures
        r@ == kw_fields(),
{
    vec![102u8, 105u8, 101u8, 108u8, 100u8, 115u8]
}

/// The bytes of `"variants"`.
pub open spec fn kw_variants() -> Seq<u8> {
    seq![118u8, 97u8, 114u8, 105u8, 97u8, 110u8, 116u8, 115u8]
}

/// The bytes of `"variants"`.
pub fn kb_variants() -> (r: Vec<u8>)
    ensures
        r@ == kw_variants(),
{
    vec![118u8, 97u8, 114u8, 105u8, 97u8, 110u8, 116u8, 115u8]
}

/// The bytes of `"name"`.
pub open spec fn kw_name() -> Seq<u8> {
    seq![110u8, 97u8, 109u8, 101u8]
}

/// The bytes of `"name"`.
pub fn kb_name() -> (r: Vec<u8>)
    ensures
        r@ == kw_name(),
{
    vec![110u8, 97u8, 109u8, 101u8]
}

/// The bytes of `"type"`.
pub open spec fn kw_type() -> Seq<u8> {
    seq![116u8, 121u8, 112u8, 101u8]
}

/// The bytes of `"type"`.
pub fn kb_type() -> (r: Vec<u8>)
    ensures
        r@ == kw_type(),
{
    vec![116u8, 121u8, 112u8, 101u8]
}

/// The bytes of `"tag"`.
pub open spec fn kw_tag() -> Seq<u8> {
    seq![116u8, 97u8, 103u8]
}

/// The bytes of `"tag"`.
pub fn kb_tag() -> (r: Vec<u8>)
    ensures
        r@ == kw_tag(),
{
    vec![116u8, 97u8, 103u8]
}

/// The bytes of `"init"`.
pub open spec fn kw_init() -> Seq<u8> {
    seq![105u8, 110u8, 105u8, 116u8]
}

/// The bytes of `"init"`.
pub fn kb_init() -> (r: Vec<u8>)
    ensures
        r@ == kw_init(),
{
    vec![105u8, 110u8, 105u8, 116u8]
}

/// The bytes of `"state"`.
pub open spec fn kw_state() -> Seq<u8> {
    seq![115u8, 116u8, 97u8, 116u8, 101u8]
}

/// The bytes of `"state"`.
pub fn kb_state() -> (r: Vec<u8>)
    ensures
        r@ == kw_state(),
{
    vec![115u8, 116u8, 97u8, 116u8, 101u8]
}

/// The bytes of `"event"`.
pub open spec fn kw_event() -> Seq<u8> {
    seq![101u8, 118u8, 101u8, 110u8, 116u8]
}

/// The bytes of `"event"`.
pub fn kb_event() -> (r: Vec<u8>)
    ensures
        r@ == kw_event(),
{
    vec![101u8, 118u8, 101u8, 110u8, 116u8]
}

/// The bytes of `"entrypoints"`.
pub open spec fn kw_entrypoints() -> Seq<u8> {
    seq![101u8, 110u8, 116u8, 114u8, 121u8, 112u8, 111u8, 105u8, 110u8, 116u8, 115u8]
}

/// The bytes of `"entrypoints"`.
pub fn kb_entrypoints() -> (r: Vec<u8>)
    ensures
        r@ == kw_entrypoints(),
{
    vec![101u8, 110u8, 116u8, 114u8, 121u8, 112u8, 111u8, 105u8, 110u8, 116u8, 115u8]
}

/// The bytes of `"parameter"`.
pub open spec fn kw_parameter() -> Seq<u8> {
    seq![112u8, 97u8, 114u8, 97u8, 109u8, 101u8, 116u8, 101u8, 114u8]
}

/// The bytes of `"parameter"`.
pub fn kb_parameter() -> (r: Vec<u8>)
    ensures
        r@ == kw_parameter(),
{
    vec![112u8, 97u8, 114u8, 97u8, 109u8, 101u8, 116u8, 101u8, 114u8]
}

/// The bytes of `"returnValue"`.
pub open spec fn kw_returnValue() -> Seq<u8> {
    seq![114u8, 101u8, 116u8, 117u8, 114u8, 110u8, 86u8, 97u8, 108u8, 117u8, 101u8]
}

/// The bytes of `"returnValue"`.
pub fn kb_returnValue() -> (r: Vec<u8>)
    ensures
        r@ == kw_returnValue(),
{
    vec![114u8, 101u8, 116u8, 117u8, 114u8, 110u8, 86u8, 97u8, 108u8, 117u8, 101u8]
}

/// The bytes of `"error"`.
pub open spec fn kw_error() -> Seq<u8> {
    seq![101u8, 114u8, 114u8, 111u8, 114u8]
}

/// The bytes of `"error"`.
pub fn kb_error() -> (r: Vec<u8>)
    ensures
        r@ == kw_error(),
{
    vec![101u8, 114u8, 114u8, 111u8, 114u8]
}

/// The bytes of `"named"`.
pub open spec fn kw_named() -> Seq<u8> {
    seq![110u8, 97u8, 109u8, 101u8, 100u8]
}

/// The bytes of `"named"`.
pub fn kb_named() -> (r: Vec<u8>)
    ensures
        r@ == kw_named(),
{
    vec![110u8, 97u8, 109u8, 101u8, 100u8]
}

/// The bytes of `"unnamed"`.
pub open spec fn kw_unnamed() -> Seq<u8> {
    seq![117u8, 110u8, 110u8, 97u8, 109u8, 101u8, 100u8]
}

/// The bytes of `"unnamed"`.
pub fn kb_unnamed() -> (r: Vec<u8>)
    ensures
        r@ == kw_unnamed(),
{
    vec![117u8, 110u8, 110u8, 97u8, 109u8, 101u8, 100u8]
}

/// The bytes of `"none"`.
pub open spec fn kw_none() -> Seq<u8> {
    seq![110u8, 111u8, 110u8, 101u8]
}

/// The bytes of `"none"`.
pub fn kb_none() -> (r: Vec<u8>)
    ensures
        r@ == kw_none(),
{
    vec![110u8, 111u8, 110u8, 101u8]
}

/// The bytes of `"unit"`.
pub open spec fn kw_unit() -> Seq<u8> {
    seq![117u8, 110u8, 105u8, 116u8]
}

/// The bytes of `"unit"`.
pub fn kb_unit() -> (r: Vec<u8>)
    ensures
        r@ == kw_unit(),
{
    vec![117u8, 110u8, 105u8, 116u8]
}

/// The bytes of `"bool"`.
pub open spec fn kw_bool() -> Seq<u8> {
    seq![98u8, 111u8, 111u8, 108u8]
}

/// The bytes of `"bool"`.
pub fn kb_bool() -> (r: Vec<u8>)
    ensures
        r@ == kw_bool(),
{
    vec![98u8, 111u8, 111u8, 108u8]
}

/// The bytes of `"u8"`.
pub open spec fn kw_u8() -> Seq<u8> {
    seq![117u8, 56u8]
}

/// The bytes of `"u8"`.
pub fn kb_u8() -> (r: Vec<u8>)
    ensures
        r@ == kw_u8(),
{
    vec![117u8, 56u8]
}

/// The bytes of `"u16"`.
pub open spec fn kw_u16() -> Seq<u8> {
    seq![117u8, 49u8, 54u8]
}

/// The bytes of `"u16"`.
pub fn kb_u16() -> (r: Vec<u8>)
    ensures
        r@ == kw_u16(),
{
    vec![117u8, 49u8, 54u8]
}

/// The bytes of `"u32"`.
pub open spec fn kw_u32() -> Seq<u8> {
    seq![117u8, 51u8, 50u8]
}

/// The bytes of `"u32"`.
pub fn kb_u32() -> (r: Vec<u8>)
    ensures
        r@ == kw_u32(),
{
    vec![117u8, 51u8, 50u8]
}

/// The bytes of `"u64"`.
pub open spec fn kw_u64() -> Seq<u8> {
    seq![117u8, 54u8, 52u8]
}

/// The bytes of `"u64"`.
pub fn kb_u64() -> (r: Vec<u8>)
    ensures
        r@ == kw_u64(),
{
    vec![117u8, 54u8, 52u8]
}

/// The bytes of `"u128"`.
pub open spec fn kw_u128() -> Seq<u8> {
    seq![117u8, 49u8, 50u8, 56u8]
}

/// The bytes of `"u128"`.
pub fn kb_u128() -> (r: Vec<u8>)
    ensures
        r@ == kw_u128(),
{
    vec![117u8, 49u8, 50u8, 56u8]
}

/// The bytes of `"i8"`.
pub open spec fn kw_i8() -> Seq<u8> {
    seq![105u8, 56u8]
}

/// The bytes of `"i8"`.
pub fn kb_i8() -> (r: Vec<u8>)
    ensures
        r@ == kw_i8(),
{
    vec![105u8, 56u8]
}

/// The bytes of `"i16"`.
pub open spec fn kw_i16() -> Seq<u8> {
    seq![105u8, 49u8, 54u8]
}

/// The bytes of `"i16"`.
pub fn kb_i16() -> (r: Vec<u8>)
    ensures
        r@ == kw_i16(),
{
    vec![105u8, 49u8, 54u8]
}

/// The bytes of `"i32"`.
pub open spec fn kw_i32() -> Seq<u8> {
    seq![105u8, 51u8, 50u8]
}

/// The bytes of `"i32"`.
pub fn kb_i32() -> (r: Vec<u8>)
    ensures
        r@ == kw_i32(),
{
    vec![105u8, 51u8, 50u8]
}

/// The bytes of `"i64"`.
pub open spec fn kw_i64() -> Seq<u8> {
    seq![105u8, 54u8, 52u8]
}

/// The bytes of `"i64"`.
pub fn kb_i64() -> (r: Vec<u8>)
    ensures
        r@ == kw_i64(),
{
    vec![105u8, 54u8, 52u8]
}

/// The bytes of `"i128"`.
pub open spec fn kw_i128() -> Seq<u8> {
    seq![105u8, 49u8, 50u8, 56u8]
}

/// The bytes of `"i128"`.
pub fn kb_i128() -> (r: Vec<u8>)
    ensures
        r@ == kw_i128(),
{
    vec![105u8, 49u8, 50u8, 56u8]
}

/// The bytes of `"amount"`.
pub open spec fn kw_amount() -> Seq<u8> {
    seq![97u8, 109u8, 111u8, 117u8, 110u8, 116u8]
}

/// The bytes of `"amount"`.
pub fn kb_amount() -> (r: Vec<u8>)
    ensures
        r@ == kw_amount(),
{
    vec![97u8, 109u8, 111u8, 117u8, 110u8, 116u8]
}

/// The bytes of `"account_address"`.
pub open spec fn kw_account_address() -> Seq<u8> {
    seq![97u8, 99u8, 99u8, 111u8, 117u8, 110u8, 116u8, 95u8, 97u8, 100u8, 100u8, 114u8, 101u8, 115u8, 115u8]
}

/// The bytes of `"account_address"`.
pub fn kb_account_address() -> (r: Vec<u8>)
    ensures
        r@ == kw_account_address(),
{
    vec![97u8, 99u8, 99u8, 111u8, 117u8, 110u8, 116u8, 95u8, 97u8, 100u8, 100u8, 114u8, 101u8, 115u8, 115u8]
}

/// The bytes of `"contract_address"`.
pub open spec fn kw_contract_address() -> Seq<u8> {
    seq![99u8, 111u8, 110u8, 116u8, 114u8, 97u8, 99u8, 116u8, 95u8, 97u8, 100u8, 100u8, 114u8, 101u8, 115u8, 115u8]
}

/// The bytes of `"contract_address"`.
pub fn kb_contract_address() -> (r: Vec<u8>)
    ensures
        r@ == kw_contract_address(),
{
    vec![99u8, 111u8, 110u8, 116u8, 114u8, 97u8, 99u8, 116u8, 95u8, 97u8, 100u8, 100u8, 114u8, 101u8, 115u8, 115u8]
}

/// The bytes of `"timestamp"`.
pub open spec fn kw_timestamp() -> Seq<u8> {
    seq![116u8, 105u8, 109u8, 101u8, 115u8, 116u8, 97u8, 109u8, 112u8]
}

/// The bytes of `"timestamp"`.
pub fn kb_timestamp() -> (r: Vec<u8>)
    ensures
        r@ == kw_timestamp(),
{
    vec![116u8, 105u8, 109u8, 101u8, 115u8, 116u8, 97u8, 109u8, 112u8]
}

/// The bytes of `"duration"`.
pub open spec fn kw_duration() -> Seq<u8> {
    seq![100u8, 117u8, 114u8, 97u8, 116u8, 105u8, 111u8, 110u8]
}

/// The bytes of `"duration"`.
pub fn kb_duration() -> (r: Vec<u8>)
    ensures
        r@ == kw_duration(),
{
    vec![100u8, 117u8, 114u8, 97u8, 116u8, 105u8, 111u8, 110u8]
}

/// The bytes of `"pair"`.
pub open spec fn kw_pair() -> Seq<u8> {
    seq![112u8, 97u8, 105u8, 114u8]
}

/// The bytes of `"pair"`.
pub fn kb_pair() -> (r: Vec<u8>)
    ensures
        r@ == kw_pair(),
{
    vec![112u8, 97u8, 105u8, 114u8]
}

/// The bytes of `"list"`.
pub open spec fn kw_list() -> Seq<u8> {
    seq![108u8, 105u8, 115u8, 116u8]
}

/// The bytes of `"list"`.
pub fn kb_list() -> (r: Vec<u8>)
    ensures
        r@ == kw_list(),
{
    vec![108u8, 105u8, 115u8, 116u8]
}

/// The bytes of `"set"`.
pub open spec fn kw_set() -> Seq<u8> {
    seq![115u8, 101u8, 116u8]
}

/// The bytes of `"set"`.
pub fn kb_set() -> (r: Vec<u8>)
    ensures
        r@ == kw_set(),
{
    vec![115u8, 101u8, 116u8]
}

/// The bytes of `"map"`.
pub open spec fn kw_map() -> Seq<u8> {
    seq![109u8, 97u8, 112u8]
}

/// The bytes of `"map"`.
pub fn kb_map() -> (r: Vec<u8>)
    ensures
        r@ == kw_map(),
{
    vec![109u8, 97u8, 112u8]
}

/// The bytes of `"array"`.
pub open spec fn kw_array() -> Seq<u8> {
    seq![97u8, 114u8, 114u8, 97u8, 121u8]
}

/// The bytes of `"array"`.
pub fn kb_array() -> (r: Vec<u8>)
    ensures
        r@ == kw_array(),
{
    vec![97u8, 114u8, 114u8, 97u8, 121u8]
}

/// The bytes of `"struct"`.
pub open spec fn kw_struct() -> Seq<u8> {
    seq![115u8, 116u8, 114u8, 117u8, 99u8, 116u8]
}

/// The bytes of `"struct"`.
pub fn kb_struct() -> (r: Vec<u8>)
    ensures
        r@ == kw_struct(),
{
    vec![115u8, 116u8, 114u8, 117u8, 99u8, 116u8]
}

/// The bytes of `"enum"`.
pub open spec fn kw_enum() -> Seq<u8> {
    seq![101u8, 110u8, 117u8, 109u8]
}

/// The bytes of `"enum"`.
pub fn kb_enum() -> (r: Vec<u8>)
    ensures
        r@ == kw_enum(),
{
    vec![101u8, 110u8, 117u8, 109u8]
}

/// The bytes of `"string"`.
pub open spec fn kw_string() -> Seq<u8> {
    seq![115u8, 116u8, 114u8, 105u8, 110u8, 103u8]
}

/// The bytes of `"string"`.
pub fn kb_string() -> (r: Vec<u8>)
    ensures
        r@ == kw_string(),
{
    vec![115u8, 116u8, 114u8, 105u8, 110u8, 103u8]
}

/// The bytes of `"contract_name"`.
pub open spec fn kw_contract_name() -> Seq<u8> {
    seq![99u8, 111u8, 110u8, 116u8, 114u8, 97u8, 99u8, 116u8, 95u8, 110u8, 97u8, 109u8, 101u8]
}

/// The bytes of `"contract_name"`.
pub fn kb_contract_name() -> (r: Vec<u8>)
    ensures
        r@ == kw_contract_name(),
{
    vec![99u8, 111u8, 110u8, 116u8, 114u8, 97u8, 99u8, 116u8, 95u8, 110u8, 97u8, 109u8, 101u8]
}

/// The bytes of `"receive_name"`.
pub open spec fn kw_receive_name() -> Seq<u8> {
    seq![114u8, 101u8, 99u8, 101u8, 105u8, 118u8, 101u8, 95u8, 110u8, 97u8, 109u8, 101u8]
}

/// The bytes of `"receive_name"`.
pub fn kb_receive_name() -> (r: Vec<u8>)
    ensures
        r@ == kw_receive_name(),
{
    vec![114u8, 101u8, 99u8, 101u8, 105u8, 118u8, 101u8, 95u8, 110u8, 97u8, 109u8, 101u8]
}

/// The bytes of `"uleb128"`.
pub open spec fn kw_uleb128() -> Seq<u8> {
    seq![117u8, 108u8, 101u8, 98u8, 49u8, 50u8, 56u8]
}

/// The bytes of `"uleb128"`.
pub fn kb_uleb128() -> (r: Vec<u8>)
    ensures
        r@ == kw_uleb128(),
{
    vec![117u8, 108u8, 101u8, 98u8, 49u8, 50u8, 56u8]
}

/// The bytes of `"ileb128"`.
pub open spec fn kw_ileb128() -> Seq<u8> {
    seq![105u8, 108u8, 101u8, 98u8, 49u8, 50u8, 56u8]
}

/// The bytes of `"ileb128"`.
pub fn kb_ileb128() -> (r: Vec<u8>)
    ensures
        r@ == kw_ileb128(),
{
    vec![105u8, 108u8, 101u8, 98u8, 49u8, 50u8, 56u8]
}

/// The bytes of `"byte_list"`.
pub open spec fn kw_byte_list() -> Seq<u8> {
    seq![98u8, 121u8, 116u8, 101u8, 95u8, 108u8, 105u8, 115u8, 116u8]
}

/// The bytes of `"byte_list"`.
pub fn kb_byte_list() -> (r: Vec<u8>)
    ensures
        r@ == kw_byte_list(),
{
    vec![98u8, 121u8, 116u8, 101u8, 95u8, 108u8, 105u8, 115u8, 116u8]
}

/// The bytes of `"byte_array"`.
pub open spec fn kw_byte_array() -> Seq<u8> {
    seq![98u8, 121u8, 116u8, 101u8, 95u8, 97u8, 114u8, 114u8, 97u8, 121u8]
}

/// The bytes of `"byte_array"`.
pub fn kb_byte_array() -> (r: Vec<u8>)
    ensures
        r@ == kw_byte_array(),
{
    vec![98u8, 121u8, 116u8, 101u8, 95u8, 97u8, 114u8, 114u8, 97u8, 121u8]
}

/// The bytes of `"tagged_enum"`.
pub open spec fn kw_tagged_enum() -> Seq<u8> {
    seq![116u8, 97u8, 103u8, 103u8, 101u8, 100u8, 95u8, 101u8, 110u8, 117u8, 109u8]
}

/// The bytes of `"tagged_enum"`.
pub fn kb_tagged_enum() -> (r: Vec<u8>)
    ensures
        r@ == kw_tagged_enum(),
{
    vec![116u8, 97u8, 103u8, 103u8, 101u8, 100u8, 95u8, 101u8, 110u8, 117u8, 109u8]
}
/// Builds a one-member JSON object.
pub fn jobj1(k1: Vec<u8>, v1: Json) -> (r: Json)
    ensures
        r@ == JsonView::Obj(seq![(k1@, v1@)]),
{
    let mut o: Vec<(Vec<u8>, Json)> = Vec::new();
    o.push((k1, v1));
    proof {
        lemma_obj_view(o@);
        assert(obj_view(o@) =~= seq![(k1@, v1@)]);
    }
    Json::Obj(o)
}

/// Builds a two-member JSON object.
pub fn jobj2(k1: Vec<u8>, v1: Json, k2: Vec<u8>, v2: Json) -> (r: Json)
    ensures
        r@ == JsonView::Obj(seq![(k1@, v1@), (k2@, v2@)]),
{
    let mut o: Vec<(Vec<u8>, Json)> = Vec::new();
    o.push((k1, v1));
    o.push((k2, v2));
    proof {
        lemma_obj_view(o@);
        assert(obj_view(o@) =~= seq![(k1@, v1@), (k2@, v2@)]);
    }
    Json::Obj(o)
}

/// Builds a three-member JSON object.
pub fn jobj3(k1: Vec<u8>, v1: Json, k2: Vec<u8>, v2: Json, k3: Vec<u8>, v3: Json) -> (r: Json)
    ensures
        r@ == JsonView::Obj(seq![(k1@, v1@), (k2@, v2@), (k3@, v3@)]),
{
    let mut o: Vec<(Vec<u8>, Json)> = Vec::new();
    o.push((k1, v1));
    o.push((k2, v2));
    o.push((k3, v3));
    proof {
        lemma_obj_view(o@);
        assert(obj_view(o@) =~= seq![(k1@, v1@), (k2@, v2@), (k3@, v3@)]);
    }
    Json::Obj(o)
}

/// Builds a four-member JSON object.
pub fn jobj4(
    k1: Vec<u8>,
    v1: Json,
    k2: Vec<u8>,
    v2: Json,
    k3: Vec<u8>,
    v3: Json,
    k4: Vec<u8>,
    v4: Json,
) -> (r: Json)
    ensures
        r@ == JsonView::Obj(seq![(k1@, v1@), (k2@, v2@), (k3@, v3@), (k4@, v4@)]),
{
    let mut o: Vec<(Vec<u8>, Json)> = Vec::new();
    o.push((k1, v1));
    o.push((k2, v2));
    o.push((k3, v3));
    o.push((k4, v4));
    proof {
        lemma_obj_view(o@);
        assert(obj_view(o@) =~= seq![(k1@, v1@), (k2@, v2@), (k3@, v3@), (k4@, v4@)]);
    }
    Json::Obj(o)
}

/// Copies a byte string.
pub fn copy_name(v: &Vec<u8>) -> (r: Vec<u8>)
    ensures
        r@ == v@,
{
    let mut out: Vec<u8> = Vec::new();
    let mut i: usize = 0;
    while i < v.len()
        invariant
            i <= v@.len(),
            out@ == v@.subrange(0, i as int),
        decreases v@.len() - i,
    {
        out.push(v[i]);
        proof {
            assert(out@ =~= v@.subrange(0, i + 1 as int));
        }
        i = i + 1;
    }
    proof {
        assert(out@ =~= v@);
    }
    out
}

/// How a length-size class projects: the string `"u8"`, `"u16"` or `"u32"`.
pub open spec fn sp_size_length(sl: SizeLength) -> JsonView {
    match sl {
        SizeLength::U8 => JsonView::Str(kw_u8()),
        SizeLength::U16 => JsonView::Str(kw_u16()),
        SizeLength::U32 => JsonView::Str(kw_u32()),
    }
}

/// The `kind` string of each type-descriptor variant.
pub open spec fn sp_kind(t: TypeView) -> Seq<u8> {
    match t {
        TypeView::Unit => kw_unit(),
        TypeView::Bool => kw_bool(),
        TypeView::U8 => kw_u8(),
        TypeView::U16 => kw_u16(),
        TypeView::U32 => kw_u32(),
        TypeView::U64 => kw_u64(),
        TypeView::U128 => kw_u128(),
        TypeView::I8 => kw_i8(),
        TypeView::I16 => kw_i16(),
        TypeView::I32 => kw_i32(),
        TypeView::I64 => kw_i64(),
        TypeView::I128 => kw_i128(),
        TypeView::Amount => kw_amount(),
        TypeView::AccountAddress => kw_account_address(),
        TypeView::ContractAddress => kw_contract_address(),
        TypeView::Timestamp => kw_timestamp(),
        TypeView::Duration => kw_duration(),
        TypeView::Pair(_, _) => kw_pair(),
        TypeView::List(_, _) => kw_list(),
        TypeView::SetOf(_, _) => kw_set(),
        TypeView::MapOf(_, _, _) => kw_map(),
        TypeView::Array(_, _) => kw_array(),
        TypeView::Struct(_) => kw_struct(),
        TypeView::Enum(_) => kw_enum(),
        TypeView::Text(_) => kw_string(),
        TypeView::ContractName(_) => kw_contract_name(),
        TypeView::ReceiveName(_) => kw_receive_name(),
        TypeView::ULeb128(_) => kw_uleb128(),
        TypeView::ILeb128(_) => kw_ileb128(),
        TypeView::ByteList(_) => kw_byte_list(),
        TypeView::ByteArray(_) => kw_byte_array(),
        TypeView::TaggedEnum(_) => kw_tagged_enum(),
    }
}

/// How a type descriptor projects to JSON: an object whose first member is
/// `kind`, followed by the variant's structural parameters.
pub open spec fn sp_type(t: TypeView) -> JsonView
    decreases t,
{
    match t {
        TypeView::Pair(a, b) => JsonView::Obj(
            seq![
                (kw_kind(), JsonView::Str(kw_pair())),
                (kw_first(), sp_type(*a)),
                (kw_second(), sp_type(*b)),
            ],
        ),
        TypeView::List(sl, e) => JsonView::Obj(
            seq![
                (kw_kind(), JsonView::Str(kw_list())),
                (kw_sizeLength(), sp_size_length(sl)),
                (kw_item(), sp_type(*e)),
            ],
        ),
        TypeView::SetOf(sl, e) => JsonView::Obj(
            seq![
                (kw_kind(), JsonView::Str(kw_set())),
                (kw_sizeLength(), sp_size_length(sl)),
                (kw_item(), sp_type(*e)),
            ],
        ),
        TypeView::MapOf(sl, k, v) => JsonView::Obj(
            seq![
                (kw_kind(), JsonView::Str(kw_map())),
                (kw_sizeLength(), sp_size_length(sl)),
                (kw_key(), sp_type(*k)),
                (kw_value(), sp_type(*v)),
            ],
        ),
        TypeView::Array(n, e) => JsonView::Obj(
            seq![
                (kw_kind(), JsonView::Str(kw_array())),
                (kw_length(), JsonView::Num(n as u64)),
                (kw_item(), sp_type(*e)),
            ],
        ),
        TypeView::Struct(f) => JsonView::Obj(
            seq![(kw_kind(), JsonView::Str(kw_struct())), (kw_fields(), sp_fields(f))],
        ),
        TypeView::Enum(vs) => JsonView::Obj(
            seq![
                (kw_kind(), JsonView::Str(kw_enum())),
                (kw_variants(), JsonView::Arr(sp_enum_list(vs))),
            ],
        ),
        TypeView::Text(sl) => JsonView::Obj(
            seq![(kw_kind(), JsonView::Str(kw_string())), (kw_sizeLength(), sp_size_length(sl))],
        ),
        TypeView::ContractName(sl) => JsonView::Obj(
            seq![
                (kw_kind(), JsonView::Str(kw_contract_name())),
                (kw_sizeLength(), sp_size_length(sl)),
            ],
        ),
        TypeView::ReceiveName(sl) => JsonView::Obj(
            seq![
                (kw_kind(), JsonView::Str(kw_receive_name())),
                (kw_sizeLength(), sp_size_length(sl)),
            ],
        ),
        TypeView::ULeb128(n) => JsonView::Obj(
            seq![
                (kw_kind(), JsonView::Str(kw_uleb128())),
                (kw_maxLength(), JsonView::Num(n as u64)),
            ],
        ),
        TypeView::ILeb128(n) => JsonView::Obj(
            seq![
                (kw_kind(), JsonView::Str(kw_ileb128())),
                (kw_maxLength(), JsonView::Num(n as u64)),
            ],
        ),
        TypeView::ByteList(sl) => JsonView::Obj(
            seq![
                (kw_kind(), JsonView::Str(kw_byte_list())),
                (kw_sizeLength(), sp_size_length(sl)),
            ],
        ),
        TypeView::ByteArray(n) => JsonView::Obj(
            seq![
                (kw_kind(), JsonView::Str(kw_byte_array())),
                (kw_length(), JsonView::Num(n as u64)),
            ],
        ),
        TypeView::TaggedEnum(vs) => JsonView::Obj(
            seq![
                (kw_kind(), JsonView::Str(kw_tagged_enum())),
                (kw_variants(), JsonView::Arr(sp_tagged_list(vs))),
            ],
        ),
        _ => JsonView::Obj(seq![(kw_kind(), JsonView::Str(sp_kind(t)))]),
    }
}

/// How a field shape projects to JSON.
pub open spec fn sp_fields(f: FieldsView) -> JsonView
    decreases f,
{
    match f {
        FieldsView::Named(fs) => JsonView::Obj(
            seq![
                (kw_kind(), JsonView::Str(kw_named())),
                (kw_fields(), JsonView::Arr(sp_named_list(fs))),
            ],
        ),
        FieldsView::Unnamed(ts) => JsonView::Obj(
            seq![
                (kw_kind(), JsonView::Str(kw_unnamed())),
                (kw_fields(), JsonView::Arr(sp_unnamed_list(ts))),
            ],
        ),
        FieldsView::Empty => JsonView::Obj(seq![(kw_kind(), JsonView::Str(kw_none()))]),
    }
}

/// How a named-field list projects: one `{name, type}` object per field.
pub open spec fn sp_named_list(s: Seq<(Seq<u8>, TypeView)>) -> Seq<JsonView>
    decreases s,
{
    if s.len() == 0 {
        Seq::empty()
    } else {
        seq![
            JsonView::Obj(
                seq![(kw_name(), JsonView::Str(s[0].0)), (kw_type(), sp_type(s[0].1))],
            ),
        ] + sp_named_list(s.drop_first())
    }
}

/// How a positional-field list projects: the field types in order.
pub open spec fn sp_unnamed_list(s: Seq<TypeView>) -> Seq<JsonView>
    decreases s,
{
    if s.len() == 0 {
        Seq::empty()
    } else {
        seq![sp_type(s[0])] + sp_unnamed_list(s.drop_first())
    }
}

/// How an enum-variant list projects: one `{name, fields}` object per
/// variant, in declaration order.
pub open spec fn sp_enum_list(s: Seq<(Seq<u8>, FieldsView)>) -> Seq<JsonView>
    decreases s,
{
    if s.len() == 0 {
        Seq::empty()
    } else {
        seq![
            JsonView::Obj(
                seq![(kw_name(), JsonView::Str(s[0].0)), (kw_fields(), sp_fields(s[0].1))],
            ),
        ] + sp_enum_list(s.drop_first())
    }
}

/// How a tagged-enum variant list projects: one `{tag, name, fields}` object
/// per variant, in tag order.
pub open spec fn sp_tagged_list(s: Seq<(u8, Seq<u8>, FieldsView)>) -> Seq<JsonView>
    decreases s,
{
    if s.len() == 0 {
        Seq::empty()
    } else {
        seq![
            JsonView::Obj(
                seq![
                    (kw_tag(), JsonView::Num(s[0].0 as u64)),
                    (kw_name(), JsonView::Str(s[0].1)),
                    (kw_fields(), sp_fields(s[0].2)),
                ],
            ),
        ] + sp_tagged_list(s.drop_first())
    }
}

/// The object members contributed by one optional type-valued field.
pub open spec fn sp_opt_member(k: Seq<u8>, o: Option<TypeView>) -> Seq<(Seq<u8>, JsonView)> {
    match o {
        Option::None => Seq::empty(),
        Option::Some(t) => seq![(k, sp_type(t))],
    }
}

/// How a first-generation function schema projects: optional `parameter` and
/// `returnValue` members, each present exactly when the field is present.
pub open spec fn sp_function_v1(f: FunctionV1View) -> JsonView {
    JsonView::Obj(
        sp_opt_member(kw_parameter(), f.parameter) + sp_opt_member(
            kw_returnValue(),
            f.return_value,
        ),
    )
}

/// How a later-generation function schema projects: optional `parameter`,
/// `returnValue` and `error` members.
pub open spec fn sp_function_v2(f: FunctionV2View) -> JsonView {
    JsonView::Obj(
        sp_opt_member(kw_parameter(), f.parameter) + sp_opt_member(
            kw_returnValue(),
            f.return_value,
        ) + sp_opt_member(kw_error(), f.error),
    )
}

/// How a generation-0 entrypoint map projects: one member per entrypoint, in
/// name order, each a flat parameter type.
pub open spec fn sp_entrypoints_v0(s: Seq<(Seq<u8>, TypeView)>) -> Seq<(Seq<u8>, JsonView)>
    decreases s,
{
    if s.len() == 0 {
        Seq::empty()
    } else {
        seq![(s[0].0, sp_type(s[0].1))] + sp_entrypoints_v0(s.drop_first())
    }
}

/// How a generation-1 entrypoint map projects.
pub open spec fn sp_entrypoints_v1(s: Seq<(Seq<u8>, FunctionV1View)>) -> Seq<(Seq<u8>, JsonView)>
    decreases s,
{
    if s.len() == 0 {
        Seq::empty()
    } else {
        seq![(s[0].0, sp_function_v1(s[0].1))] + sp_entrypoints_v1(s.drop_first())
    }
}

/// How a generation-2 or generation-3 entrypoint map projects.
pub open spec fn sp_entrypoints_v2(s: Seq<(Seq<u8>, FunctionV2View)>) -> Seq<(Seq<u8>, JsonView)>
    decreases s,
{
    if s.len() == 0 {
        Seq::empty()
    } else {
        seq![(s[0].0, sp_function_v2(s[0].1))] + sp_entrypoints_v2(s.drop_first())
    }
}

/// The `entrypoints` member of a contract object: absent when the contract
/// has no receive entrypoints.
pub open spec fn sp_entrypoints_member(m: Seq<(Seq<u8>, JsonView)>) -> Seq<(Seq<u8>, JsonView)> {
    if m.len() == 0 {
        Seq::empty()
    } else {
        seq![(kw_entrypoints(), JsonView::Obj(m))]
    }
}

/// How a generation-0 contract schema projects.
pub open spec fn sp_contract_v0(c: ContractV0View) -> JsonView {
    JsonView::Obj(
        sp_opt_member(kw_init(), c.init) + sp_opt_member(kw_state(), c.state)
            + sp_entrypoints_member(sp_entrypoints_v0(c.receive)),
    )
}

/// The object members contributed by one optional first-generation function
/// field.
pub open spec fn sp_opt_fn1_member(k: Seq<u8>, o: Option<FunctionV1View>) -> Seq<
    (Seq<u8>, JsonView),
> {
    match o {
        Option::None => Seq::empty(),
        Option::Some(f) => seq![(k, sp_function_v1(f))],
    }
}

/// The object members contributed by one optional later-generation function
/// field.
pub open spec fn sp_opt_fn2_member(k: Seq<u8>, o: Option<FunctionV2View>) -> Seq<
    (Seq<u8>, JsonView),
> {
    match o {
        Option::None => Seq::empty(),
        Option::Some(f) => seq![(k, sp_function_v2(f))],
    }
}

/// How a generation-1 contract schema projects.
pub open spec fn sp_contract_v1(c: ContractV1View) -> JsonView {
    JsonView::Obj(
        sp_opt_fn1_member(kw_init(), c.init) + sp_entrypoints_member(
            sp_entrypoints_v1(c.receive),
        ),
    )
}

/// How a generation-2 contract schema projects.
pub open spec fn sp_contract_v2(c: ContractV2View) -> JsonView {
    JsonView::Obj(
        sp_opt_fn2_member(kw_init(), c.init) + sp_entrypoints_member(
            sp_entrypoints_v2(c.receive),
        ),
    )
}

/// How a generation-3 contract schema projects: adds the optional `event`
/// member at the contract level.
pub open spec fn sp_contract_v3(c: ContractV3View) -> JsonView {
    JsonView::Obj(
        sp_opt_fn2_member(kw_init(), c.init) + sp_opt_member(kw_event(), c.event)
            + sp_entrypoints_member(sp_entrypoints_v2(c.receive)),
    )
}

/// How a generation-0 contract map projects: one member per contract, in
/// name order.
pub open spec fn sp_contracts_v0(s: Seq<(Seq<u8>, ContractV0View)>) -> Seq<(Seq<u8>, JsonView)>
    decreases s,
{
    if s.len() == 0 {
        Seq::empty()
    } else {
        seq![(s[0].0, sp_contract_v0(s[0].1))] + sp_contracts_v0(s.drop_first())
    }
}

/// How a generation-1 contract map projects.
pub open spec fn sp_contracts_v1(s: Seq<(Seq<u8>, ContractV1View)>) -> Seq<(Seq<u8>, JsonView)>
    decreases s,
{
    if s.len() == 0 {
        Seq::empty()
    } else {
        seq![(s[0].0, sp_contract_v1(s[0].1))] + sp_contracts_v1(s.drop_first())
    }
}

/// How a generation-2 contract map projects.
pub open spec fn sp_contracts_v2(s: Seq<(Seq<u8>, ContractV2View)>) -> Seq<(Seq<u8>, JsonView)>
    decreases s,
{
    if s.len() == 0 {
        Seq::empty()
    } else {
        seq![(s[0].0, sp_contract_v2(s[0].1))] + sp_contracts_v2(s.drop_first())
    }
}

/// How a generation-3 contract map projects.
pub open spec fn sp_contracts_v3(s: Seq<(Seq<u8>, ContractV3View)>) -> Seq<(Seq<u8>, JsonView)>
    decreases s,
{
    if s.len() == 0 {
        Seq::empty()
    } else {
        seq![(s[0].0, sp_contract_v3(s[0].1))] + sp_contracts_v3(s.drop_first())
    }
}

/// How a whole module schema projects: an object keyed by contract name, in
/// name order.
pub open spec fn sp_module(m: ModuleSchemaView) -> JsonView {
    match m {
        ModuleSchemaView::V0(cs) => JsonView::Obj(sp_contracts_v0(cs)),
        ModuleSchemaView::V1(cs) => JsonView::Obj(sp_contracts_v1(cs)),
        ModuleSchemaView::V2(cs) => JsonView::Obj(sp_contracts_v2(cs)),
        ModuleSchemaView::V3(cs) => JsonView::Obj(sp_contracts_v3(cs)),
    }
}

/// Projects a length-size class.
pub fn size_length_to_json(sl: SizeLength) -> (r: Json)
    ensures
        r@ == sp_size_length(sl),
{
    match sl {
        SizeLength::U8 => Json::Str(kb_u8()),
        SizeLength::U16 => Json::Str(kb_u16()),
        SizeLength::U32 => Json::Str(kb_u32()),
    }
}

/// Projects one type descriptor to its JSON object.
pub fn type_to_json(t: &Type) -> (r: Json)
    ensures
        r@ == sp_type(t@),
    decreases t, 0int,
{
    match t {
        Type::Unit => jobj1(kb_kind(), Json::Str(kb_unit())),
        Type::Bool => jobj1(kb_kind(), Json::Str(kb_bool())),
        Type::U8 => jobj1(kb_kind(), Json::Str(kb_u8())),
        Type::U16 => jobj1(kb_kind(), Json::Str(kb_u16())),
        Type::U32 => jobj1(kb_kind(), Json::Str(kb_u32())),
        Type::U64 => jobj1(kb_kind(), Json::Str(kb_u64())),
        Type::U128 => jobj1(kb_kind(), Json::Str(kb_u128())),
        Type::I8 => jobj1(kb_kind(), Json::Str(kb_i8())),
        Type::I16 => jobj1(kb_kind(), Json::Str(kb_i16())),
        Type::I32 => jobj1(kb_kind(), Json::Str(kb_i32())),
        Type::I64 => jobj1(kb_kind(), Json::Str(kb_i64())),
        Type::I128 => jobj1(kb_kind(), Json::Str(kb_i128())),
        Type::Amount => jobj1(kb_kind(), Json::Str(kb_amount())),
        Type::AccountAddress => jobj1(kb_kind(), Json::Str(kb_account_address())),
        Type::ContractAddress => jobj1(kb_kind(), Json::Str(kb_contract_address())),
        Type::Timestamp => jobj1(kb_kind(), Json::Str(kb_timestamp())),
        Type::Duration => jobj1(kb_kind(), Json::Str(kb_duration())),
        Type::Pair(a, b) => jobj3(
            kb_kind(),
            Json::Str(kb_pair()),
            kb_first(),
            type_to_json(a),
            kb_second(),
            type_to_json(b),
        ),
        Type::List(sl, e) => jobj3(
            kb_kind(),
            Json::Str(kb_list()),
            kb_sizeLength(),
            size_length_to_json(*sl),
            kb_item(),
            type_to_json(e),
        ),
        Type::SetOf(sl, e) => jobj3(
            kb_kind(),
            Json::Str(kb_set()),
            kb_sizeLength(),
            size_length_to_json(*sl),
            kb_item(),
            type_to_json(e),
        ),
        Type::MapOf(sl, k, v) => jobj4(
            kb_kind(),
            Json::Str(kb_map()),
            kb_sizeLength(),
            size_length_to_json(*sl),
            kb_key(),
            type_to_json(k),
            kb_value(),
            type_to_json(v),
        ),
        Type::Array(n, e) => jobj3(
            kb_kind(),
            Json::Str(kb_array()),
            kb_length(),
            Json::Num(*n as u64),
            kb_item(),
            type_to_json(e),
        ),
        Type::Struct(f) => jobj2(kb_kind(), Json::Str(kb_struct()), kb_fields(), fields_to_json(f)),
        Type::Enum(vs) => {
            let items = enum_variants_to_json(vs, 0);
            proof {
                assert(enum_variants_view(vs@).skip(0) =~= enum_variants_view(vs@));
            }
            jobj2(kb_kind(), Json::Str(kb_enum()), kb_variants(), Json::Arr(items))
        },
        Type::Text(sl) => jobj2(
            kb_kind(),
            Json::Str(kb_string()),
            kb_sizeLength(),
            size_length_to_json(*sl),
        ),
        Type::ContractName(sl) => jobj2(
            kb_kind(),
            Json::Str(kb_contract_name()),
            kb_sizeLength(),
            size_length_to_json(*sl),
        ),
        Type::ReceiveName(sl) => jobj2(
            kb_kind(),
            Json::Str(kb_receive_name()),
            kb_sizeLength(),
            size_length_to_json(*sl),
        ),
        Type::ULeb128(n) => jobj2(
            kb_kind(),
            Json::Str(kb_uleb128()),
            kb_maxLength(),
            Json::Num(*n as u64),
        ),
        Type::ILeb128(n) => jobj2(
            kb_kind(),
            Json::Str(kb_ileb128()),
            kb_maxLength(),
            Json::Num(*n as u64),
        ),
        Type::ByteList(sl) => jobj2(
            kb_kind(),
            Json::Str(kb_byte_list()),
            kb_sizeLength(),
            size_length_to_json(*sl),
        ),
        Type::ByteArray(n) => jobj2(
            kb_kind(),
            Json::Str(kb_byte_array()),
            kb_length(),
            Json::Num(*n as u64),
        ),
        Type::TaggedEnum(vs) => {
            let items = tagged_variants_to_json(vs, 0);
            proof {
                assert(tagged_variants_view(vs@).skip(0) =~= tagged_variants_view(vs@));
            }
            jobj2(kb_kind(), Json::Str(kb_tagged_enum()), kb_variants(), Json::Arr(items))
        },
    }
}

/// Projects a field shape to its JSON object.
pub fn fields_to_json(f: &Fields) -> (r: Json)
    ensures
        r@ == sp_fields(f@),
    decreases f, 0int,
{
    match f {
        Fields::Named(fs) => {
            let items = named_fields_to_json(fs, 0);
            proof {
                assert(named_fields_view(fs@).skip(0) =~= named_fields_view(fs@));
            }
            jobj2(kb_kind(), Json::Str(kb_named()), kb_fields(), Json::Arr(items))
        },
        Fields::Unnamed(ts) => {
            let items = unnamed_fields_to_json(ts, 0);
            proof {
                assert(unnamed_fields_view(ts@).skip(0) =~= unnamed_fields_view(ts@));
            }
            jobj2(kb_kind(), Json::Str(kb_unnamed()), kb_fields(), Json::Arr(items))
        },
        Fields::Empty => jobj1(kb_kind(), Json::Str(kb_none())),
    }
}

/// Projects the named fields from index `i` on.
pub fn named_fields_to_json(entries: &Vec<(Vec<u8>, Type)>, i: usize) -> (r: Vec<Json>)
    requires
        i <= entries@.len(),
    ensures
        arr_view(r@) == sp_named_list(named_fields_view(entries@).skip(i as int)),
    decreases entries, entries@.len() - i,
{
    proof {
        lemma_named_fields_view(entries@);
    }
    if i == entries.len() {
        let r: Vec<Json> = Vec::new();
        proof {
            assert(arr_view(r@) =~= Seq::<JsonView>::empty());
            assert(named_fields_view(entries@).skip(i as int) =~= Seq::<
                (Seq<u8>, TypeView),
            >::empty());
        }
        r
    } else {
        let name = copy_name(&entries[i].0);
        let head = jobj2(kb_name(), Json::Str(name), kb_type(), type_to_json(&entries[i].1));
        let mut rest = named_fields_to_json(entries, i + 1);
        let ghost rest0 = rest@;
        rest.insert(0, head);
        proof {
            let s = named_fields_view(entries@).skip(i as int);
            assert(s.drop_first() =~= named_fields_view(entries@).skip(i as int + 1));
            assert(s[0] == (entries@[i as int].0@, crate::types::type_view(
                entries@[i as int].1,
            )));
            lemma_arr_view(rest0);
            lemma_arr_view(rest@);
            assert(arr_view(rest@) =~= seq![head@] + arr_view(rest0));
        }
        rest
    }
}

/// Projects the positional fields from index `i` on.
pub fn unnamed_fields_to_json(entries: &Vec<Type>, i: usize) -> (r: Vec<Json>)
    requires
        i <= entries@.len(),
    ensures
        arr_view(r@) == sp_unnamed_list(unnamed_fields_view(entries@).skip(i as int)),
    decreases entries, entries@.len() - i,
{
    proof {
        lemma_unnamed_fields_view(entries@);
    }
    if i == entries.len() {
        let r: Vec<Json> = Vec::new();
        proof {
            assert(arr_view(r@) =~= Seq::<JsonView>::empty());
            assert(unnamed_fields_view(entries@).skip(i as int) =~= Seq::<TypeView>::empty());
        }
        r
    } else {
        let head = type_to_json(&entries[i]);
        let mut rest = unnamed_fields_to_json(entries, i + 1);
        let ghost rest0 = rest@;
        rest.insert(0, head);
        proof {
            let s = unnamed_fields_view(entries@).skip(i as int);
            assert(s.drop_first() =~= unnamed_fields_view(entries@).skip(i as int + 1));
            assert(s[0] == crate::types::type_view(entries@[i as int]));
            lemma_arr_view(rest0);
            lemma_arr_view(rest@);
            assert(arr_view(rest@) =~= seq![head@] + arr_view(rest0));
        }
        rest
    }
}

/// Projects the enum variants from index `i` on.
pub fn enum_variants_to_json(entries: &Vec<(Vec<u8>, Fields)>, i: usize) -> (r: Vec<Json>)
    requires
        i <= entries@.len(),
    ensures
        arr_view(r@) == sp_enum_list(enum_variants_view(entries@).skip(i as int)),
    decreases entries, entries@.len() - i,
{
    proof {
        lemma_enum_variants_view(entries@);
    }
    if i == entries.len() {
        let r: Vec<Json> = Vec::new();
        proof {
            assert(arr_view(r@) =~= Seq::<JsonView>::empty());
            assert(enum_variants_view(entries@).skip(i as int) =~= Seq::<
                (Seq<u8>, FieldsView),
            >::empty());
        }
        r
    } else {
        let name = copy_name(&entries[i].0);
        let head = jobj2(kb_name(), Json::Str(name), kb_fields(), fields_to_json(&entries[i].1));
        let mut rest = enum_variants_to_json(entries, i + 1);
        let ghost rest0 = rest@;
        rest.insert(0, head);
        proof {
            let s = enum_variants_view(entries@).skip(i as int);
            assert(s.drop_first() =~= enum_variants_view(entries@).skip(i as int + 1));
            assert(s[0] == (entries@[i as int].0@, crate::types::fields_view(
                entries@[i as int].1,
            )));
            lemma_arr_view(rest0);
            lemma_arr_view(rest@);
            assert(arr_view(rest@) =~= seq![head@] + arr_view(rest0));
        }
        rest
    }
}

/// Projects the tagged-enum variants from index `i` on.
pub fn tagged_variants_to_json(entries: &Vec<(u8, Vec<u8>, Fields)>, i: usize) -> (r: Vec<Json>)
    requires
        i <= entries@.len(),
    ensures
        arr_view(r@) == sp_tagged_list(tagged_variants_view(entries@).skip(i as int)),
    decreases entries, entries@.len() - i,
{
    proof {
        lemma_tagged_variants_view(entries@);
    }
    if i == entries.len() {
        let r: Vec<Json> = Vec::new();
        proof {
            assert(arr_view(r@) =~= Seq::<JsonView>::empty());
            assert(tagged_variants_view(entries@).skip(i as int) =~= Seq::<
                (u8, Seq<u8>, FieldsView),
            >::empty());
        }
        r
    } else {
        let name = copy_name(&entries[i].1);
        let head = jobj3(
            kb_tag(),
            Json::Num(entries[i].0 as u64),
            kb_name(),
            Json::Str(name),
            kb_fields(),
            fields_to_json(&entries[i].2),
        );
        let mut rest = tagged_variants_to_json(entries, i + 1);
        let ghost rest0 = rest@;
        rest.insert(0, head);
        proof {
            let s = tagged_variants_view(entries@).skip(i as int);
            assert(s.drop_first() =~= tagged_variants_view(entries@).skip(i as int + 1));
            assert(s[0] == (entries@[i as int].0, entries@[i as int].1@, crate::types::fields_view(
                entries@[i as int].2,
            )));
            lemma_arr_view(rest0);
            lemma_arr_view(rest@);
            assert(arr_view(rest@) =~= seq![head@] + arr_view(rest0));
        }
        rest
    }
}

/// Projects a first-generation function schema: `parameter` and
/// `returnValue` members, each present exactly when the field is present.
pub fn function_v1_schema(f: &FunctionV1) -> (r: Json)
    ensures
        r@ == sp_function_v1(f@),
{
    let mut o: Vec<(Vec<u8>, Json)> = Vec::new();
    match &f.parameter {
        Option::Some(t) => {
            let j = type_to_json(t);
            o.push((kb_parameter(), j));
        },
        Option::None => {},
    }
    proof {
        lemma_obj_view(o@);
        assert(obj_view(o@) =~= sp_opt_member(kw_parameter(), opt_type_view(f.parameter)));
    }
    let ghost o1 = o@;
    match &f.return_value {
        Option::Some(t) => {
            let j = type_to_json(t);
            o.push((kb_returnValue(), j));
        },
        Option::None => {},
    }
    proof {
        lemma_obj_view(o@);
        assert(obj_view(o@) =~= obj_view(o1) + sp_opt_member(
            kw_returnValue(),
            opt_type_view(f.return_value),
        ));
    }
    Json::Obj(o)
}

/// Projects a later-generation function schema: `parameter`, `returnValue`
/// and `error` members, each present exactly when the field is present.
pub fn function_v2_schema(f: &FunctionV2) -> (r: Json)
    ensures
        r@ == sp_function_v2(f@),
{
    let mut o: Vec<(Vec<u8>, Json)> = Vec::new();
    match &f.parameter {
        Option::Some(t) => {
            let j = type_to_json(t);
            o.push((kb_parameter(), j));
        },
        Option::None => {},
    }
    proof {
        lemma_obj_view(o@);
        assert(obj_view(o@) =~= sp_opt_member(kw_parameter(), opt_type_view(f.parameter)));
    }
    let ghost o1 = o@;
    match &f.return_value {
        Option::Some(t) => {
            let j = type_to_json(t);
            o.push((kb_returnValue(), j));
        },
        Option::None => {},
    }
    proof {
        lemma_obj_view(o@);
        assert(obj_view(o@) =~= obj_view(o1) + sp_opt_member(
            kw_returnValue(),
            opt_type_view(f.return_value),
        ));
    }
    let ghost o2 = o@;
    match &f.error {
        Option::Some(t) => {
            let j = type_to_json(t);
            o.push((kb_error(), j));
        },
        Option::None => {},
    }
    proof {
        lemma_obj_view(o@);
        assert(obj_view(o@) =~= obj_view(o2) + sp_opt_member(kw_error(), opt_type_view(f.error)));
    }
    Json::Obj(o)
}

/// Projects the generation-0 entrypoints from index `i` on.
pub fn entrypoints_v0_to_json(entries: &Vec<(Vec<u8>, Type)>, i: usize) -> (r: Vec<
    (Vec<u8>, Json),
>)
    requires
        i <= entries@.len(),
    ensures
        obj_view(r@) == sp_entrypoints_v0(entries_view(entries@).skip(i as int)),
    decreases entries@.len() - i,
{
    if i == entries.len() {
        let r: Vec<(Vec<u8>, Json)> = Vec::new();
        proof {
            assert(obj_view(r@) =~= Seq::<(Seq<u8>, JsonView)>::empty());
            assert(entries_view(entries@).skip(i as int) =~= Seq::<(Seq<u8>, TypeView)>::empty());
        }
        r
    } else {
        let name = copy_name(&entries[i].0);
        let j = type_to_json(&entries[i].1);
        let mut rest = entrypoints_v0_to_json(entries, i + 1);
        let ghost rest0 = rest@;
        rest.insert(0, (name, j));
        proof {
            let s = entries_view(entries@).skip(i as int);
            assert(s.drop_first() =~= entries_view(entries@).skip(i as int + 1));
            assert(s[0] == (entries@[i as int].0@, entries@[i as int].1@));
            lemma_obj_view(rest0);
            lemma_obj_view(rest@);
            assert(obj_view(rest@) =~= seq![(name@, j@)] + obj_view(rest0));
        }
        rest
    }
}

/// Projects the generation-1 entrypoints from index `i` on.
pub fn entrypoints_v1_to_json(entries: &Vec<(Vec<u8>, FunctionV1)>, i: usize) -> (r: Vec<
    (Vec<u8>, Json),
>)
    requires
        i <= entries@.len(),
    ensures
        obj_view(r@) == sp_entrypoints_v1(entries_view(entries@).skip(i as int)),
    decreases entries@.len() - i,
{
    if i == entries.len() {
        let r: Vec<(Vec<u8>, Json)> = Vec::new();
        proof {
            assert(obj_view(r@) =~= Seq::<(Seq<u8>, JsonView)>::empty());
            assert(entries_view(entries@).skip(i as int) =~= Seq::<
                (Seq<u8>, FunctionV1View),
            >::empty());
        }
        r
    } else {
        let name = copy_name(&entries[i].0);
        let j = function_v1_schema(&entries[i].1);
        let mut rest = entrypoints_v1_to_json(entries, i + 1);
        let ghost rest0 = rest@;
        rest.insert(0, (name, j));
        proof {
            let s = entries_view(entries@).skip(i as int);
            assert(s.drop_first() =~= entries_view(entries@).skip(i as int + 1));
            assert(s[0] == (entries@[i as int].0@, entries@[i as int].1@));
            lemma_obj_view(rest0);
            lemma_obj_view(rest@);
            assert(obj_view(rest@) =~= seq![(name@, j@)] + obj_view(rest0));
        }
        rest
    }
}

/// Projects the generation-2 or generation-3 entrypoints from index `i` on.
pub fn entrypoints_v2_to_json(entries: &Vec<(Vec<u8>, FunctionV2)>, i: usize) -> (r: Vec<
    (Vec<u8>, Json),
>)
    requires
        i <= entries@.len(),
    ensures
        obj_view(r@) == sp_entrypoints_v2(entries_view(entries@).skip(i as int)),
    decreases entries@.len() - i,
{
    if i == entries.len() {
        let r: Vec<(Vec<u8>, Json)> = Vec::new();
        proof {
            assert(obj_view(r@) =~= Seq::<(Seq<u8>, JsonView)>::empty());
            assert(entries_view(entries@).skip(i as int) =~= Seq::<
                (Seq<u8>, FunctionV2View),
            >::empty());
        }
        r
    } else {
        let name = copy_name(&entries[i].0);
        let j = function_v2_schema(&entries[i].1);
        let mut rest = entrypoints_v2_to_json(entries, i + 1);
        let ghost rest0 = rest@;
        rest.insert(0, (name, j));
        proof {
            let s = entries_view(entries@).skip(i as int);
            assert(s.drop_first() =~= entries_view(entries@).skip(i as int + 1));
            assert(s[0] == (entries@[i as int].0@, entries@[i as int].1@));
            lemma_obj_view(rest0);
            lemma_obj_view(rest@);
            assert(obj_view(rest@) =~= seq![(name@, j@)] + obj_view(rest0));
        }
        rest
    }
}

/// Projects a generation-0 contract schema: optional `init` and `state`
/// members and, when there are receive entrypoints, an `entrypoints` object.
pub fn schema_to_json_v0(c: &ContractV0) -> (r: Json)
    ensures
        r@ == sp_contract_v0(c@),
{
    let mut o: Vec<(Vec<u8>, Json)> = Vec::new();
    match &c.init {
        Option::Some(t) => {
            let j = type_to_json(t);
            o.push((kb_init(), j));
        },
        Option::None => {},
    }
    proof {
        lemma_obj_view(o@);
        assert(obj_view(o@) =~= sp_opt_member(kw_init(), opt_type_view(c.init)));
    }
    let ghost o1 = o@;
    match &c.state {
        Option::Some(t) => {
            let j = type_to_json(t);
            o.push((kb_state(), j));
        },
        Option::None => {},
    }
    proof {
        lemma_obj_view(o@);
        assert(obj_view(o@) =~= obj_view(o1) + sp_opt_member(kw_state(), opt_type_view(c.state)));
    }
    let ghost o2 = o@;
    if c.receive.len() > 0 {
        let eps = entrypoints_v0_to_json(&c.receive, 0);
        proof {
            assert(entries_view(c.receive@).skip(0) =~= entries_view(c.receive@));
        }
        o.push((kb_entrypoints(), Json::Obj(eps)));
    }
    proof {
        lemma_obj_view(o@);
        assert(obj_view(o@) =~= obj_view(o2) + sp_entrypoints_member(
            sp_entrypoints_v0(entries_view(c.receive@)),
        ));
    }
    Json::Obj(o)
}

/// Projects a generation-1 contract schema.
pub fn schema_to_json_v1(c: &ContractV1) -> (r: Json)
    ensures
        r@ == sp_contract_v1(c@),
{
    let mut o: Vec<(Vec<u8>, Json)> = Vec::new();
    match &c.init {
        Option::Some(f) => {
            let j = function_v1_schema(f);
            o.push((kb_init(), j));
        },
        Option::None => {},
    }
    proof {
        lemma_obj_view(o@);
        assert(obj_view(o@) =~= sp_opt_fn1_member(kw_init(), c@.init));
    }
    let ghost o1 = o@;
    if c.receive.len() > 0 {
        let eps = entrypoints_v1_to_json(&c.receive, 0);
        proof {
            assert(entries_view(c.receive@).skip(0) =~= entries_view(c.receive@));
        }
        o.push((kb_entrypoints(), Json::Obj(eps)));
    }
    proof {
        lemma_obj_view(o@);
        assert(obj_view(o@) =~= obj_view(o1) + sp_entrypoints_member(
            sp_entrypoints_v1(entries_view(c.receive@)),
        ));
    }
    Json::Obj(o)
}

/// Projects a generation-2 contract schema.
pub fn schema_to_json_v2(c: &ContractV2) -> (r: Json)
    ensures
        r@ == sp_contract_v2(c@),
{
    let mut o: Vec<(Vec<u8>, Json)> = Vec::new();
    match &c.init {
        Option::Some(f) => {
            let j = function_v2_schema(f);
            o.push((kb_init(), j));
        },
        Option::None => {},
    }
    proof {
        lemma_obj_view(o@);
        assert(obj_view(o@) =~= sp_opt_fn2_member(kw_init(), c@.init));
    }
    let ghost o1 = o@;
    if c.receive.len() > 0 {
        let eps = entrypoints_v2_to_json(&c.receive, 0);
        proof {
            assert(entries_view(c.receive@).skip(0) =~= entries_view(c.receive@));
        }
        o.push((kb_entrypoints(), Json::Obj(eps)));
    }
    proof {
        lemma_obj_view(o@);
        assert(obj_view(o@) =~= obj_view(o1) + sp_entrypoints_member(
            sp_entrypoints_v2(entries_view(c.receive@)),
        ));
    }
    Json::Obj(o)
}

/// Projects a generation-3 contract schema: adds the optional `event` member
/// at the contract level, not nested under `entrypoints`.
pub fn schema_to_json_v3(c: &ContractV3) -> (r: Json)
    ensures
        r@ == sp_contract_v3(c@),
{
    let mut o: Vec<(Vec<u8>, Json)> = Vec::new();
    match &c.init {
        Option::Some(f) => {
            let j = function_v2_schema(f);
            o.push((kb_init(), j));
        },
        Option::None => {},
    }
    proof {
        lemma_obj_view(o@);
        assert(obj_view(o@) =~= sp_opt_fn2_member(kw_init(), c@.init));
    }
    let ghost o1 = o@;
    match &c.event {
        Option::Some(t) => {
            let j = type_to_json(t);
            o.push((kb_event(), j));
        },
        Option::None => {},
    }
    proof {
        lemma_obj_view(o@);
        assert(obj_view(o@) =~= obj_view(o1) + sp_opt_member(kw_event(), opt_type_view(c.event)));
    }
    let ghost o2 = o@;
    if c.receive.len() > 0 {
        let eps = entrypoints_v2_to_json(&c.receive, 0);
        proof {
            assert(entries_view(c.receive@).skip(0) =~= entries_view(c.receive@));
        }
        o.push((kb_entrypoints(), Json::Obj(eps)));
    }
    proof {
        lemma_obj_view(o@);
        assert(obj_view(o@) =~= obj_view(o2) + sp_entrypoints_member(
            sp_entrypoints_v2(entries_view(c.receive@)),
        ));
    }
    Json::Obj(o)
}

/// Projects the generation-0 contracts from index `i` on.
pub fn contracts_v0_to_json(entries: &Vec<(Vec<u8>, ContractV0)>, i: usize) -> (r: Vec<
    (Vec<u8>, Json),
>)
    requires
        i <= entries@.len(),
    ensures
        obj_view(r@) == sp_contracts_v0(entries_view(entries@).skip(i as int)),
    decreases entries@.len() - i,
{
    if i == entries.len() {
        let r: Vec<(Vec<u8>, Json)> = Vec::new();
        proof {
            assert(obj_view(r@) =~= Seq::<(Seq<u8>, JsonView)>::empty());
            assert(entries_view(entries@).skip(i as int) =~= Seq::<
                (Seq<u8>, ContractV0View),
            >::empty());
        }
        r
    } else {
        let name = copy_name(&entries[i].0);
        let j = schema_to_json_v0(&entries[i].1);
        let mut rest = contracts_v0_to_json(entries, i + 1);
        let ghost rest0 = rest@;
        rest.insert(0, (name, j));
        proof {
            let s = entries_view(entries@).skip(i as int);
            assert(s.drop_first() =~= entries_view(entries@).skip(i as int + 1));
            assert(s[0] == (entries@[i as int].0@, entries@[i as int].1@));
            lemma_obj_view(rest0);
            lemma_obj_view(rest@);
            assert(obj_view(rest@) =~= seq![(name@, j@)] + obj_view(rest0));
        }
        rest
    }
}

/// Projects the generation-1 contracts from index `i` on.
pub fn contracts_v1_to_json(entries: &Vec<(Vec<u8>, ContractV1)>, i: usize) -> (r: Vec<
    (Vec<u8>, Json),
>)
    requires
        i <= entries@.len(),
    ensures
        obj_view(r@) == sp_contracts_v1(entries_view(entries@).skip(i as int)),
    decreases entries@.len() - i,
{
    if i == entries.len() {
        let r: Vec<(Vec<u8>, Json)> = Vec::new();
        proof {
            assert(obj_view(r@) =~= Seq::<(Seq<u8>, JsonView)>::empty());
            assert(entries_view(entries@).skip(i as int) =~= Seq::<
                (Seq<u8>, ContractV1View),
            >::empty());
        }
        r
    } else {
        let name = copy_name(&entries[i].0);
        let j = schema_to_json_v1(&entries[i].1);
        let mut rest = contracts_v1_to_json(entries, i + 1);
        let ghost rest0 = rest@;
        rest.insert(0, (name, j));
        proof {
            let s = entries_view(entries@).skip(i as int);
            assert(s.drop_first() =~= entries_view(entries@).skip(i as int + 1));
            assert(s[0] == (entries@[i as int].0@, entries@[i as int].1@));
            lemma_obj_view(rest0);
            lemma_obj_view(rest@);
            assert(obj_view(rest@) =~= seq![(name@, j@)] + obj_view(rest0));
        }
        rest
    }
}

/// Projects the generation-2 contracts from index `i` on.
pub fn contracts_v2_to_json(entries: &Vec<(Vec<u8>, ContractV2)>, i: usize) -> (r: Vec<
    (Vec<u8>, Json),
>)
    requires
        i <= entries@.len(),
    ensures
        obj_view(r@) == sp_contracts_v2(entries_view(entries@).skip(i as int)),
    decreases entries@.len() - i,
{
    if i == entries.len() {
        let r: Vec<(Vec<u8>, Json)> = Vec::new();
        proof {
            assert(obj_view(r@) =~= Seq::<(Seq<u8>, JsonView)>::empty());
            assert(entries_view(entries@).skip(i as int) =~= Seq::<
                (Seq<u8>, ContractV2View),
            >::empty());
        }
        r
    } else {
        let name = copy_name(&entries[i].0);
        let j = schema_to_json_v2(&entries[i].1);
        let mut rest = contracts_v2_to_json(entries, i + 1);
        let ghost rest0 = rest@;
        rest.insert(0, (name, j));
        proof {
            let s = entries_view(entries@).skip(i as int);
            assert(s.drop_first() =~= entries_view(entries@).skip(i as int + 1));
            assert(s[0] == (entries@[i as int].0@, entries@[i as int].1@));
            lemma_obj_view(rest0);
            lemma_obj_view(rest@);
            assert(obj_view(rest@) =~= seq![(name@, j@)] + obj_view(rest0));
        }
        rest
    }
}

/// Projects the generation-3 contracts from index `i` on.
pub fn contracts_v3_to_json(entries: &Vec<(Vec<u8>, ContractV3)>, i: usize) -> (r: Vec<
    (Vec<u8>, Json),
>)
    requires
        i <= entries@.len(),
    ensures
        obj_view(r@) == sp_contracts_v3(entries_view(entries@).skip(i as int)),
    decreases entries@.len() - i,
{
    if i == entries.len() {
        let r: Vec<(Vec<u8>, Json)> = Vec::new();
        proof {
            assert(obj_view(r@) =~= Seq::<(Seq<u8>, JsonView)>::empty());
            assert(entries_view(entries@).skip(i as int) =~= Seq::<
                (Seq<u8>, ContractV3View),
            >::empty());
        }
        r
    } else {
        let name = copy_name(&entries[i].0);
        let j = schema_to_json_v3(&entries[i].1);
        let mut rest = contracts_v3_to_json(entries, i + 1);
        let ghost rest0 = rest@;
        rest.insert(0, (name, j));
        proof {
            let s = entries_view(entries@).skip(i as int);
            assert(s.drop_first() =~= entries_view(entries@).skip(i as int + 1));
            assert(s[0] == (entries@[i as int].0@, entries@[i as int].1@));
            lemma_obj_view(rest0);
            lemma_obj_view(rest@);
            assert(obj_view(rest@) =~= seq![(name@, j@)] + obj_view(rest0));
        }
        rest
    }
}

/// Projects a whole module schema: an object with one member per contract,
/// in name order. Projection is total and cannot fail on a decoded schema.
pub fn schema_to_json(schema: &VersionedModuleSchema) -> (r: Json)
    ensures
        r@ == sp_module(schema@),
{
    match schema {
        VersionedModuleSchema::V0(cs) => {
            let m = contracts_v0_to_json(cs, 0);
            proof {
                assert(entries_view(cs@).skip(0) =~= entries_view(cs@));
            }
            Json::Obj(m)
        },
        VersionedModuleSchema::V1(cs) => {
            let m = contracts_v1_to_json(cs, 0);
            proof {
                assert(entries_view(cs@).skip(0) =~= entries_view(cs@));
            }
            Json::Obj(m)
        },
        VersionedModuleSchema::V2(cs) => {
            let m = contracts_v2_to_json(cs, 0);
            proof {
                assert(entries_view(cs@).skip(0) =~= entries_view(cs@));
            }
            Json::Obj(m)
        },
        VersionedModuleSchema::V3(cs) => {
            let m = contracts_v3_to_json(cs, 0);
            proof {
                assert(entries_view(cs@).skip(0) =~= entries_view(cs@));
            }
            Json::Obj(m)
        },
    }
}

/// Maps a fallible function over the values of a name-keyed entry vector,
/// keeping the keys; the first failure aborts the whole map.
pub fn try_map_values<V, W, E, F: Fn(&V) -> Result<W, E>>(m: &Vec<(Vec<u8>, V)>, f: &F) -> (r:
    Result<Vec<(Vec<u8>, W)>, E>)
    requires
        forall|i: int| 0 <= i < m@.len() ==> #[trigger] f.requires((&m@[i].1,)),
    ensures
        (match r {
            Ok(out) => out@.len() == m@.len() && forall|i: int|
                0 <= i < m@.len() ==> (#[trigger] out@[i]).0@ == m@[i].0@ && f.ensures(
                    (&m@[i].1,),
                    Ok(out@[i].1),
                ),
            Err(e) => exists|i: int|
                0 <= i < m@.len() && f.ensures((&m@[i].1,), Err::<W, E>(e)),
        }),
{
    let mut out: Vec<(Vec<u8>, W)> = Vec::new();
    let mut i: usize = 0;
    while i < m.len()
        invariant
            i <= m@.len(),
            out@.len() == i,
            forall|j: int| 0 <= j < m@.len() ==> #[trigger] f.requires((&m@[j].1,)),
            forall|j: int|
                0 <= j < i ==> (#[trigger] out@[j]).0@ == m@[j].0@ && f.ensures(
                    (&m@[j].1,),
                    Ok(out@[j].1),
                ),
        decreases m@.len() - i,
    {
        let key = copy_name(&m[i].0);
        match f(&m[i].1) {
            Ok(w) => {
                out.push((key, w));
            },
            Err(e) => {
                return Err(e);
            },
        }
        i = i + 1;
    }
    Ok(out)
}

} // verus!
