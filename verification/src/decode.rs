//! The binary schema decoder: a pure, forward-reading parser from a byte
//! sequence to a `VersionedModuleSchema`.
//!
//! Every executable function here mirrors a specification-level decoder
//! (`sd_*`) over the mathematical views, and its contract states that it
//! returns exactly what the specification decoder returns, advancing the read
//! position past the consumed bytes.
use vstd::prelude::*;

use crate::types::ContractV0;
use crate::types::ContractV0View;
use crate::types::ContractV1;
use crate::types::ContractV1View;
use crate::types::ContractV2;
use crate::types::ContractV2View;
use crate::types::ContractV3;
use crate::types::ContractV3View;
use crate::types::Fields;
use crate::types::FieldsView;
use crate::types::FunctionV1;
use crate::types::FunctionV1View;
use crate::types::FunctionV2;
use crate::types::FunctionV2View;
use crate::types::ModuleSchemaView;
use crate::types::SchemaError;
use crate::types::SizeLength;
use crate::types::Type;
use crate::types::TypeView;
use crate::types::VersionedModuleSchema;
use crate::types::WasmVersion;
use crate::types::enum_variants_view;
use crate::types::entries_view;
use crate::types::fields_view;
use crate::types::lex_less;
use crate::types::named_fields_view;
use crate::types::opt_type_view;
use crate::types::tagged_variants_view;
use crate::types::type_view;
use crate::types::unnamed_fields_view;

verus! {

/// Whether a byte sequence is valid UTF-8. This names the success of std's
/// `str::from_utf8`, which depends on the bytes alone.
pub uninterp spec fn is_utf8(s: Seq<u8>) -> bool;

/// Relies on std's `str::from_utf8`: it returns `Ok` exactly when the bytes
/// are valid UTF-8.
#[verifier::external_body]
fn utf8_valid(b: &Vec<u8>) -> (r: bool)
    ensures
        r == is_utf8(b@),
{
    std::str::from_utf8(b.as_slice()).is_ok()
}

/// Specification decoder for one byte.
pub open spec fn sd_u8(b: Seq<u8>, pos: nat) -> Result<(u8, nat), SchemaError> {
    if pos + 1 <= b.len() {
        Ok((b[pos as int], (pos + 1) as nat))
    } else {
        Err(SchemaError::UnexpectedEndOfInput { offset: pos as usize })
    }
}

/// Specification decoder for a four-byte little-endian unsigned integer.
pub open spec fn sd_u32(b: Seq<u8>, pos: nat) -> Result<(nat, nat), SchemaError> {
    if pos + 4 <= b.len() {
        Ok((
            (b[pos as int] as nat) + (b[pos as int + 1] as nat) * 0x100
                + (b[pos as int + 2] as nat) * 0x10000 + (b[pos as int + 3] as nat) * 0x1000000,
            (pos + 4) as nat,
        ))
    } else {
        Err(SchemaError::UnexpectedEndOfInput { offset: pos as usize })
    }
}

/// Specification decoder for a name: a four-byte length followed by that many
/// bytes of UTF-8.
pub open spec fn sd_name(b: Seq<u8>, pos: nat) -> Result<(Seq<u8>, nat), SchemaError> {
    match sd_u32(b, pos) {
        Err(e) => Err(e),
        Ok((len, p1)) => if p1 + len <= b.len() {
            if is_utf8(b.subrange(p1 as int, (p1 + len) as int)) {
                Ok((b.subrange(p1 as int, (p1 + len) as int), (p1 + len) as nat))
            } else {
                Err(SchemaError::MalformedSchema { offset: p1 as usize })
            }
        } else {
            Err(SchemaError::UnexpectedEndOfInput { offset: p1 as usize })
        },
    }
}

/// Specification decoder for a length-size class: 0, 1 or 2.
pub open spec fn sd_size_length(b: Seq<u8>, pos: nat) -> Result<(SizeLength, nat), SchemaError> {
    match sd_u8(b, pos) {
        Err(e) => Err(e),
        Ok((d, p1)) => match d {
            0u8 => Ok((SizeLength::U8, p1)),
            1u8 => Ok((SizeLength::U16, p1)),
            2u8 => Ok((SizeLength::U32, p1)),
            _ => Err(SchemaError::MalformedSchema { offset: pos as usize }),
        },
    }
}

/// Specification decoder for a presence flag: 0 is absent, 1 is present,
/// anything else is invalid.
pub open spec fn sd_presence(b: Seq<u8>, pos: nat) -> Result<(bool, nat), SchemaError> {
    match sd_u8(b, pos) {
        Err(e) => Err(e),
        Ok((d, p1)) => match d {
            0u8 => Ok((false, p1)),
            1u8 => Ok((true, p1)),
            _ => Err(SchemaError::InvalidPresenceFlag { flag: d, offset: pos as usize }),
        },
    }
}

/// Insert an entry into a tag-sorted variant list; `None` on a duplicate tag.
pub open spec fn spec_insert_tagged(
    tag: u8,
    name: Seq<u8>,
    f: FieldsView,
    s: Seq<(u8, Seq<u8>, FieldsView)>,
) -> Option<Seq<(u8, Seq<u8>, FieldsView)>>
    decreases s.len(),
{
    if s.len() == 0 {
        Option::Some(seq![(tag, name, f)])
    } else if tag < s[0].0 {
        Option::Some(seq![(tag, name, f)] + s)
    } else if tag == s[0].0 {
        Option::None
    } else {
        match spec_insert_tagged(tag, name, f, s.drop_first()) {
            Option::None => Option::None,
            Option::Some(r) => Option::Some(seq![s[0]] + r),
        }
    }
}

/// Insert an entry into a name-sorted entry list; `None` on a duplicate name.
pub open spec fn spec_insert<V>(
    k: Seq<u8>,
    v: V,
    s: Seq<(Seq<u8>, V)>,
) -> Option<Seq<(Seq<u8>, V)>>
    decreases s.len(),
{
    if s.len() == 0 {
        Option::Some(seq![(k, v)])
    } else if lex_less(k, s[0].0) {
        Option::Some(seq![(k, v)] + s)
    } else if k == s[0].0 {
        Option::None
    } else {
        match spec_insert(k, v, s.drop_first()) {
            Option::None => Option::None,
            Option::Some(r) => Option::Some(seq![s[0]] + r),
        }
    }
}

/// Specification decoder for one type descriptor.
///
/// The branches that fail when a nested decode did not advance the position
/// are unreachable (decoding always consumes at least one byte); they exist
/// only so the recursion measure visibly decreases.
pub open spec fn sd_type(b: Seq<u8>, pos: nat) -> Result<(TypeView, nat), SchemaError>
    decreases b.len() - pos, 0int,
{
    match sd_u8(b, pos) {
        Err(e) => Err(e),
        Ok((tag, p1)) => if !(pos < p1 && p1 <= b.len()) {
            Err(SchemaError::MalformedSchema { offset: 0 })
        } else {
            match tag {
                0u8 => Ok((TypeView::Unit, p1)),
                1u8 => Ok((TypeView::Bool, p1)),
                2u8 => Ok((TypeView::U8, p1)),
                3u8 => Ok((TypeView::U16, p1)),
                4u8 => Ok((TypeView::U32, p1)),
                5u8 => Ok((TypeView::U64, p1)),
                6u8 => Ok((TypeView::I8, p1)),
                7u8 => Ok((TypeView::I16, p1)),
                8u8 => Ok((TypeView::I32, p1)),
                9u8 => Ok((TypeView::I64, p1)),
                10u8 => Ok((TypeView::Amount, p1)),
                11u8 => Ok((TypeView::AccountAddress, p1)),
                12u8 => Ok((TypeView::ContractAddress, p1)),
                13u8 => Ok((TypeView::Timestamp, p1)),
                14u8 => Ok((TypeView::Duration, p1)),
                15u8 => match sd_type(b, p1) {
                    Err(e) => Err(e),
                    Ok((a, p2)) => if !(p1 < p2 && p2 <= b.len()) {
                        Err(SchemaError::MalformedSchema { offset: 0 })
                    } else {
                        match sd_type(b, p2) {
                            Err(e) => Err(e),
                            Ok((c, p3)) => Ok((
                                TypeView::Pair(Box::new(a), Box::new(c)),
                                p3,
                            )),
                        }
                    },
                },
                16u8 => match sd_size_length(b, p1) {
                    Err(e) => Err(e),
                    Ok((sl, p2)) => if !(p1 < p2 && p2 <= b.len()) {
                        Err(SchemaError::MalformedSchema { offset: 0 })
                    } else {
                        match sd_type(b, p2) {
                            Err(e) => Err(e),
                            Ok((t, p3)) => Ok((TypeView::List(sl, Box::new(t)), p3)),
                        }
                    },
                },
                17u8 => match sd_size_length(b, p1) {
                    Err(e) => Err(e),
                    Ok((sl, p2)) => if !(p1 < p2 && p2 <= b.len()) {
                        Err(SchemaError::MalformedSchema { offset: 0 })
                    } else {
                        match sd_type(b, p2) {
                            Err(e) => Err(e),
                            Ok((t, p3)) => Ok((TypeView::SetOf(sl, Box::new(t)), p3)),
                        }
                    },
                },
                18u8 => match sd_size_length(b, p1) {
                    Err(e) => Err(e),
                    Ok((sl, p2)) => if !(p1 < p2 && p2 <= b.len()) {
                        Err(SchemaError::MalformedSchema { offset: 0 })
                    } else {
                        match sd_type(b, p2) {
                            Err(e) => Err(e),
                            Ok((k, p3)) => if !(p2 < p3 && p3 <= b.len()) {
                                Err(SchemaError::MalformedSchema { offset: 0 })
                            } else {
                                match sd_type(b, p3) {
                                    Err(e) => Err(e),
                                    Ok((v, p4)) => Ok((
                                        TypeView::MapOf(sl, Box::new(k), Box::new(v)),
                                        p4,
                                    )),
                                }
                            },
                        }
                    },
                },
                19u8 => match sd_u32(b, p1) {
                    Err(e) => Err(e),
                    Ok((n, p2)) => if !(p1 < p2 && p2 <= b.len()) {
                        Err(SchemaError::MalformedSchema { offset: 0 })
                    } else {
                        match sd_type(b, p2) {
                            Err(e) => Err(e),
                            Ok((t, p3)) => Ok((
                                TypeView::Array(n as u32, Box::new(t)),
                                p3,
                            )),
                        }
                    },
                },
                20u8 => match sd_fields(b, p1) {
                    Err(e) => Err(e),
                    Ok((f, p2)) => Ok((TypeView::Struct(f), p2)),
                },
                21u8 => match sd_u32(b, p1) {
                    Err(e) => Err(e),
                    Ok((count, p2)) => if !(p1 < p2 && p2 <= b.len()) {
                        Err(SchemaError::MalformedSchema { offset: 0 })
                    } else {
                        match sd_enum_variants(b, p2, count) {
                            Err(e) => Err(e),
                            Ok((vs, p3)) => Ok((TypeView::Enum(vs), p3)),
                        }
                    },
                },
                22u8 => match sd_size_length(b, p1) {
                    Err(e) => Err(e),
                    Ok((sl, p2)) => Ok((TypeView::Text(sl), p2)),
                },
                23u8 => Ok((TypeView::U128, p1)),
                24u8 => Ok((TypeView::I128, p1)),
                25u8 => match sd_size_length(b, p1) {
                    Err(e) => Err(e),
                    Ok((sl, p2)) => Ok((TypeView::ContractName(sl), p2)),
                },
                26u8 => match sd_size_length(b, p1) {
                    Err(e) => Err(e),
                    Ok((sl, p2)) => Ok((TypeView::ReceiveName(sl), p2)),
                },
                27u8 => match sd_u8(b, p1) {
                    Err(e) => Err(e),
                    Ok((n, p2)) => Ok((TypeView::ULeb128(n), p2)),
                },
                28u8 => match sd_u8(b, p1) {
                    Err(e) => Err(e),
                    Ok((n, p2)) => Ok((TypeView::ILeb128(n), p2)),
                },
                29u8 => match sd_size_length(b, p1) {
                    Err(e) => Err(e),
                    Ok((sl, p2)) => Ok((TypeView::ByteList(sl), p2)),
                },
                30u8 => match sd_u32(b, p1) {
                    Err(e) => Err(e),
                    Ok((n, p2)) => Ok((TypeView::ByteArray(n as u32), p2)),
                },
                31u8 => match sd_u32(b, p1) {
                    Err(e) => Err(e),
                    Ok((count, p2)) => if !(p1 < p2 && p2 <= b.len()) {
                        Err(SchemaError::MalformedSchema { offset: 0 })
                    } else {
                        match sd_tagged_variants(b, p2, count) {
                            Err(e) => Err(e),
                            Ok((vs, p3)) => Ok((TypeView::TaggedEnum(vs), p3)),
                        }
                    },
                },
                _ => Err(SchemaError::UnknownTypeTag { tag: tag, offset: pos as usize }),
            }
        },
    }
}

/// Specification decoder for a field-shape descriptor.
pub open spec fn sd_fields(b: Seq<u8>, pos: nat) -> Result<(FieldsView, nat), SchemaError>
    decreases b.len() - pos, 0int,
{
    match sd_u8(b, pos) {
        Err(e) => Err(e),
        Ok((d, p1)) => if !(pos < p1 && p1 <= b.len()) {
            Err(SchemaError::MalformedSchema { offset: 0 })
        } else {
            match d {
                0u8 => match sd_u32(b, p1) {
                    Err(e) => Err(e),
                    Ok((count, p2)) => if !(pos < p2 && p2 <= b.len()) {
                        Err(SchemaError::MalformedSchema { offset: 0 })
                    } else {
                        match sd_named_fields(b, p2, count) {
                            Err(e) => Err(e),
                            Ok((fs, p3)) => Ok((FieldsView::Named(fs), p3)),
                        }
                    },
                },
                1u8 => match sd_u32(b, p1) {
                    Err(e) => Err(e),
                    Ok((count, p2)) => if !(pos < p2 && p2 <= b.len()) {
                        Err(SchemaError::MalformedSchema { offset: 0 })
                    } else {
                        match sd_unnamed_fields(b, p2, count) {
                            Err(e) => Err(e),
                            Ok((ts, p3)) => Ok((FieldsView::Unnamed(ts), p3)),
                        }
                    },
                },
                2u8 => Ok((FieldsView::Empty, p1)),
                _ => Err(SchemaError::MalformedSchema { offset: pos as usize }),
            }
        },
    }
}

/// Specification decoder for `count` named fields, kept in wire order.
pub open spec fn sd_named_fields(b: Seq<u8>, pos: nat, count: nat) -> Result<
    (Seq<(Seq<u8>, TypeView)>, nat),
    SchemaError,
>
    decreases b.len() - pos, 1int,
{
    if count == 0 {
        Ok((Seq::empty(), pos))
    } else {
        match sd_name(b, pos) {
            Err(e) => Err(e),
            Ok((n, p1)) => if !(pos < p1 && p1 <= b.len()) {
                Err(SchemaError::MalformedSchema { offset: 0 })
            } else {
                match sd_type(b, p1) {
                    Err(e) => Err(e),
                    Ok((t, p2)) => if !(pos < p2 && p2 <= b.len()) {
                        Err(SchemaError::MalformedSchema { offset: 0 })
                    } else {
                        match sd_named_fields(b, p2, (count - 1) as nat) {
                            Err(e) => Err(e),
                            Ok((rest, p3)) => Ok((seq![(n, t)] + rest, p3)),
                        }
                    },
                }
            },
        }
    }
}

/// Specification decoder for `count` positional fields, kept in wire order.
pub open spec fn sd_unnamed_fields(b: Seq<u8>, pos: nat, count: nat) -> Result<
    (Seq<TypeView>, nat),
    SchemaError,
>
    decreases b.len() - pos, 2int,
{
    if count == 0 {
        Ok((Seq::empty(), pos))
    } else {
        match sd_type(b, pos) {
            Err(e) => Err(e),
            Ok((t, p1)) => if !(pos < p1 && p1 <= b.len()) {
                Err(SchemaError::MalformedSchema { offset: 0 })
            } else {
                match sd_unnamed_fields(b, p1, (count - 1) as nat) {
                    Err(e) => Err(e),
                    Ok((rest, p2)) => Ok((seq![t] + rest, p2)),
                }
            },
        }
    }
}

/// Specification decoder for `count` enum variants, kept in wire order.
pub open spec fn sd_enum_variants(b: Seq<u8>, pos: nat, count: nat) -> Result<
    (Seq<(Seq<u8>, FieldsView)>, nat),
    SchemaError,
>
    decreases b.len() - pos, 1int,
{
    if count == 0 {
        Ok((Seq::empty(), pos))
    } else {
        match sd_name(b, pos) {
            Err(e) => Err(e),
            Ok((n, p1)) => if !(pos < p1 && p1 <= b.len()) {
                Err(SchemaError::MalformedSchema { offset: 0 })
            } else {
                match sd_fields(b, p1) {
                    Err(e) => Err(e),
                    Ok((f, p2)) => if !(pos < p2 && p2 <= b.len()) {
                        Err(SchemaError::MalformedSchema { offset: 0 })
                    } else {
                        match sd_enum_variants(b, p2, (count - 1) as nat) {
                            Err(e) => Err(e),
                            Ok((rest, p3)) => Ok((seq![(n, f)] + rest, p3)),
                        }
                    },
                }
            },
        }
    }
}

/// Specification decoder for `count` tagged-enum variants, sorted by tag;
/// a duplicate tag is malformed. The entry's identity is its tag, not its
/// position in the stream.
pub open spec fn sd_tagged_variants(b: Seq<u8>, pos: nat, count: nat) -> Result<
    (Seq<(u8, Seq<u8>, FieldsView)>, nat),
    SchemaError,
>
    decreases b.len() - pos, 1int,
{
    if count == 0 {
        Ok((Seq::empty(), pos))
    } else {
        match sd_u8(b, pos) {
            Err(e) => Err(e),
            Ok((tag, p1)) => if !(pos < p1 && p1 <= b.len()) {
                Err(SchemaError::MalformedSchema { offset: 0 })
            } else {
                match sd_name(b, p1) {
                    Err(e) => Err(e),
                    Ok((n, p2)) => if !(pos < p2 && p2 <= b.len()) {
                        Err(SchemaError::MalformedSchema { offset: 0 })
                    } else {
                        match sd_fields(b, p2) {
                            Err(e) => Err(e),
                            Ok((f, p3)) => if !(pos < p3 && p3 <= b.len()) {
                                Err(SchemaError::MalformedSchema { offset: 0 })
                            } else {
                                match sd_tagged_variants(b, p3, (count - 1) as nat) {
                                    Err(e) => Err(e),
                                    Ok((rest, p4)) => match spec_insert_tagged(
                                        tag,
                                        n,
                                        f,
                                        rest,
                                    ) {
                                        Option::Some(out) => Ok((out, p4)),
                                        Option::None => Err(
                                            SchemaError::MalformedSchema {
                                                offset: pos as usize,
                                            },
                                        ),
                                    },
                                }
                            },
                        }
                    },
                }
            },
        }
    }
}

/// Element-wise description of `named_fields_view`.
pub proof fn lemma_named_fields_view(s: Seq<(Vec<u8>, Type)>)
    ensures
        named_fields_view(s).len() == s.len(),
        forall|i: int|
            0 <= i < s.len() ==> named_fields_view(s)[i] == (s[i].0@, type_view(s[i].1)),
    decreases s.len(),
{
    if s.len() > 0 {
        lemma_named_fields_view(s.drop_last());
        assert forall|i: int|
            0 <= i < s.len() implies named_fields_view(s)[i] == (s[i].0@, type_view(s[i].1)) by {
            if i < s.len() - 1 {
                assert(s.drop_last()[i] == s[i]);
            }
        }
    }
}

/// Element-wise description of `unnamed_fields_view`.
pub proof fn lemma_unnamed_fields_view(s: Seq<Type>)
    ensures
        unnamed_fields_view(s).len() == s.len(),
        forall|i: int| 0 <= i < s.len() ==> unnamed_fields_view(s)[i] == type_view(s[i]),
    decreases s.len(),
{
    if s.len() > 0 {
        lemma_unnamed_fields_view(s.drop_last());
        assert forall|i: int|
            0 <= i < s.len() implies unnamed_fields_view(s)[i] == type_view(s[i]) by {
            if i < s.len() - 1 {
                assert(s.drop_last()[i] == s[i]);
            }
        }
    }
}

/// Element-wise description of `enum_variants_view`.
pub proof fn lemma_enum_variants_view(s: Seq<(Vec<u8>, Fields)>)
    ensures
        enum_variants_view(s).len() == s.len(),
        forall|i: int|
            0 <= i < s.len() ==> enum_variants_view(s)[i] == (s[i].0@, fields_view(s[i].1)),
    decreases s.len(),
{
    if s.len() > 0 {
        lemma_enum_variants_view(s.drop_last());
        assert forall|i: int|
            0 <= i < s.len() implies enum_variants_view(s)[i] == (s[i].0@, fields_view(s[i].1)) by {
            if i < s.len() - 1 {
                assert(s.drop_last()[i] == s[i]);
            }
        }
    }
}

/// Element-wise description of `tagged_variants_view`.
pub proof fn lemma_tagged_variants_view(s: Seq<(u8, Vec<u8>, Fields)>)
    ensures
        tagged_variants_view(s).len() == s.len(),
        forall|i: int|
            0 <= i < s.len() ==> tagged_variants_view(s)[i] == (
                s[i].0,
                s[i].1@,
                fields_view(s[i].2),
            ),
    decreases s.len(),
{
    if s.len() > 0 {
        lemma_tagged_variants_view(s.drop_last());
        assert forall|i: int|
            0 <= i < s.len() implies tagged_variants_view(s)[i] == (
            s[i].0,
            s[i].1@,
            fields_view(s[i].2),
        ) by {
            if i < s.len() - 1 {
                assert(s.drop_last()[i] == s[i]);
            }
        }
    }
}

/// Three-way lexicographic comparison of the byte suffixes from `i` on:
/// 0 means the first comes first, 1 means they are equal, 2 means the
/// second comes first.
fn lex_cmp_at(a: &Vec<u8>, b: &Vec<u8>, i: usize) -> (r: u8)
    requires
        i <= a@.len(),
        i <= b@.len(),
    ensures
        r <= 2,
        (r == 0) == lex_less(a@.skip(i as int), b@.skip(i as int)),
        (r == 1) == (a@.skip(i as int) == b@.skip(i as int)),
        (r == 2) == lex_less(b@.skip(i as int), a@.skip(i as int)),
    decreases a@.len() - i,
{
    if i == b.len() {
        if i == a.len() {
            proof {
                assert(a@.skip(i as int) =~= b@.skip(i as int));
            }
            1
        } else {
            2
        }
    } else if i == a.len() {
        0
    } else if a[i] < b[i] {
        0
    } else if a[i] > b[i] {
        2
    } else {
        let r = lex_cmp_at(a, b, i + 1);
        proof {
            assert(a@.skip(i as int) =~= seq![a@[i as int]] + a@.skip(i as int + 1));
            assert(b@.skip(i as int) =~= seq![b@[i as int]] + b@.skip(i as int + 1));
            assert(a@.skip(i as int).drop_first() =~= a@.skip(i as int + 1));
            assert(b@.skip(i as int).drop_first() =~= b@.skip(i as int + 1));
        }
        r
    }
}

/// Three-way lexicographic comparison of two byte strings.
fn lex_cmp(a: &Vec<u8>, b: &Vec<u8>) -> (r: u8)
    ensures
        r <= 2,
        (r == 0) == lex_less(a@, b@),
        (r == 1) == (a@ == b@),
        (r == 2) == lex_less(b@, a@),
{
    proof {
        assert(a@.skip(0) =~= a@);
        assert(b@.skip(0) =~= b@);
    }
    lex_cmp_at(a, b, 0)
}

/// Inserts an entry into a name-sorted entry vector; fails on a duplicate.
fn insert_entry<V: View>(k: Vec<u8>, v: V, entries: Vec<(Vec<u8>, V)>) -> (r: Result<
    Vec<(Vec<u8>, V)>,
    (),
>)
    ensures
        (match r {
            Ok(out) => spec_insert(k@, v@, entries_view(entries@)) == Option::Some(
                entries_view(out@),
            ),
            Err(_) => spec_insert(k@, v@, entries_view(entries@)) is None,
        }),
    decreases entries@.len(),
{
    let mut entries = entries;
    if entries.len() == 0 {
        let mut out: Vec<(Vec<u8>, V)> = Vec::new();
        out.push((k, v));
        proof {
            assert(entries_view(entries@) =~= Seq::<(Seq<u8>, V::V)>::empty());
            assert(entries_view(out@) =~= seq![(k@, v@)]);
        }
        Ok(out)
    } else {
        let c = lex_cmp(&k, &entries[0].0);
        if c == 0 {
            let ghost old_entries = entries@;
            entries.insert(0, (k, v));
            proof {
                assert(entries_view(entries@) =~= seq![(k@, v@)] + entries_view(old_entries));
            }
            Ok(entries)
        } else if c == 1 {
            Err(())
        } else {
            let ghost original = entries@;
            let first = entries.remove(0);
            let ghost tail = entries@;
            proof {
                assert(original =~= seq![first] + tail);
                assert(entries_view(tail) =~= entries_view(original).drop_first());
            }
            match insert_entry(k, v, entries) {
                Ok(mut rest) => {
                    let ghost rest0 = rest@;
                    rest.insert(0, first);
                    proof {
                        assert(entries_view(rest@) =~= seq![(first.0@, first.1@)] + entries_view(
                            rest0,
                        ));
                        assert(entries_view(original)[0] == (first.0@, first.1@));
                    }
                    Ok(rest)
                },
                Err(e) => Err(e),
            }
        }
    }
}

/// Inserts a variant into a tag-sorted variant vector; fails on a duplicate.
fn insert_tagged(tag: u8, name: Vec<u8>, f: Fields, entries: Vec<(u8, Vec<u8>, Fields)>) -> (r:
    Result<Vec<(u8, Vec<u8>, Fields)>, ()>)
    ensures
        (match r {
            Ok(out) => spec_insert_tagged(tag, name@, f@, tagged_variants_view(entries@))
                == Option::Some(tagged_variants_view(out@)),
            Err(_) => spec_insert_tagged(tag, name@, f@, tagged_variants_view(entries@)) is None,
        }),
    decreases entries@.len(),
{
    proof {
        lemma_tagged_variants_view(entries@);
    }
    let mut entries = entries;
    if entries.len() == 0 {
        let mut out: Vec<(u8, Vec<u8>, Fields)> = Vec::new();
        out.push((tag, name, f));
        proof {
            lemma_tagged_variants_view(out@);
            assert(tagged_variants_view(out@) =~= seq![(tag, name@, f@)]);
        }
        Ok(out)
    } else if tag < entries[0].0 {
        let ghost old_entries = entries@;
        entries.insert(0, (tag, name, f));
        proof {
            lemma_tagged_variants_view(entries@);
            assert(tagged_variants_view(entries@) =~= seq![(tag, name@, f@)]
                + tagged_variants_view(old_entries));
        }
        Ok(entries)
    } else if tag == entries[0].0 {
        Err(())
    } else {
        let ghost original = entries@;
        let first = entries.remove(0);
        let ghost tail = entries@;
        proof {
            assert(original =~= seq![first] + tail);
            lemma_tagged_variants_view(tail);
            lemma_tagged_variants_view(original);
            assert(tagged_variants_view(tail) =~= tagged_variants_view(original).drop_first());
        }
        match insert_tagged(tag, name, f, entries) {
            Ok(mut rest) => {
                let ghost rest0 = rest@;
                rest.insert(0, first);
                proof {
                    lemma_tagged_variants_view(rest0);
                    lemma_tagged_variants_view(rest@);
                    assert(tagged_variants_view(rest@) =~= seq![
                        (first.0, first.1@, fields_view(first.2)),
                    ] + tagged_variants_view(rest0));
                }
                Ok(rest)
            },
            Err(e) => Err(e),
        }
    }
}

/// Reads one byte.
pub fn read_u8(b: &Vec<u8>, pos: usize) -> (r: Result<(u8, usize), SchemaError>)
    ensures
        (match r {
            Ok((v, p)) => sd_u8(b@, pos as nat) == Ok::<(u8, nat), SchemaError>((v, p as nat))
                && pos < p && p <= b@.len(),
            Err(e) => sd_u8(b@, pos as nat) == Err::<(u8, nat), SchemaError>(e),
        }),
{
    if pos < b.len() {
        Ok((b[pos], pos + 1))
    } else {
        Err(SchemaError::UnexpectedEndOfInput { offset: pos })
    }
}

/// Reads a four-byte little-endian unsigned integer.
pub fn read_u32(b: &Vec<u8>, pos: usize) -> (r: Result<(u32, usize), SchemaError>)
    ensures
        (match r {
            Ok((v, p)) => sd_u32(b@, pos as nat) == Ok::<(nat, nat), SchemaError>(
                (v as nat, p as nat),
            ) && pos < p && p <= b@.len(),
            Err(e) => sd_u32(b@, pos as nat) == Err::<(nat, nat), SchemaError>(e),
        }),
{
    if b.len() >= 4 && pos <= b.len() - 4 {
        let v = (b[pos] as u32) + (b[pos + 1] as u32) * 0x100 + (b[pos + 2] as u32) * 0x10000
            + (b[pos + 3] as u32) * 0x1000000;
        Ok((v, pos + 4))
    } else {
        Err(SchemaError::UnexpectedEndOfInput { offset: pos })
    }
}

/// Reads a name: four-byte length, then that many bytes of UTF-8.
pub fn decode_name(b: &Vec<u8>, pos: usize) -> (r: Result<(Vec<u8>, usize), SchemaError>)
    ensures
        (match r {
            Ok((n, p)) => sd_name(b@, pos as nat) == Ok::<(Seq<u8>, nat), SchemaError>(
                (n@, p as nat),
            ) && pos < p && p <= b@.len(),
            Err(e) => sd_name(b@, pos as nat) == Err::<(Seq<u8>, nat), SchemaError>(e),
        }),
{
    let (len32, p1) = match read_u32(b, pos) {
        Ok(x) => x,
        Err(e) => {
            return Err(e);
        },
    };
    let len = len32 as usize;
    if len <= b.len() - p1 {
        let mut name: Vec<u8> = Vec::new();
        let mut i: usize = 0;
        while i < len
            invariant
                p1 + len <= b@.len(),
                p1 + len <= usize::MAX,
                i <= len,
                name@ == b@.subrange(p1 as int, p1 + i as int),
            decreases len - i,
        {
            name.push(b[p1 + i]);
            proof {
                assert(name@ =~= b@.subrange(p1 as int, p1 + (i + 1) as int));
            }
            i = i + 1;
        }
        if utf8_valid(&name) {
            Ok((name, p1 + len))
        } else {
            Err(SchemaError::MalformedSchema { offset: p1 })
        }
    } else {
        Err(SchemaError::UnexpectedEndOfInput { offset: p1 })
    }
}

/// Reads a length-size class byte.
pub fn decode_size_length(b: &Vec<u8>, pos: usize) -> (r: Result<(SizeLength, usize), SchemaError>)
    ensures
        (match r {
            Ok((sl, p)) => sd_size_length(b@, pos as nat) == Ok::<
                (SizeLength, nat),
                SchemaError,
            >((sl, p as nat)) && pos < p && p <= b@.len(),
            Err(e) => sd_size_length(b@, pos as nat) == Err::<(SizeLength, nat), SchemaError>(e),
        }),
{
    let (d, p1) = match read_u8(b, pos) {
        Ok(x) => x,
        Err(e) => {
            return Err(e);
        },
    };
    match d {
        0u8 => Ok((SizeLength::U8, p1)),
        1u8 => Ok((SizeLength::U16, p1)),
        2u8 => Ok((SizeLength::U32, p1)),
        _ => Err(SchemaError::MalformedSchema { offset: pos }),
    }
}

/// Reads a presence flag byte.
pub fn decode_presence(b: &Vec<u8>, pos: usize) -> (r: Result<(bool, usize), SchemaError>)
    ensures
        (match r {
            Ok((v, p)) => sd_presence(b@, pos as nat) == Ok::<(bool, nat), SchemaError>(
                (v, p as nat),
            ) && pos < p && p <= b@.len(),
            Err(e) => sd_presence(b@, pos as nat) == Err::<(bool, nat), SchemaError>(e),
        }),
{
    let (d, p1) = match read_u8(b, pos) {
        Ok(x) => x,
        Err(e) => {
            return Err(e);
        },
    };
    match d {
        0u8 => Ok((false, p1)),
        1u8 => Ok((true, p1)),
        _ => Err(SchemaError::InvalidPresenceFlag { flag: d, offset: pos }),
    }
}

/// Decodes one type descriptor: a leading tag byte selects the variant,
/// followed by the variant's payload.
pub fn decode_type(b: &Vec<u8>, pos: usize) -> (r: Result<(Type, usize), SchemaError>)
    ensures
        (match r {
            Ok((t, p)) => sd_type(b@, pos as nat) == Ok::<(TypeView, nat), SchemaError>(
                (t@, p as nat),
            ) && pos < p && p <= b@.len(),
            Err(e) => sd_type(b@, pos as nat) == Err::<(TypeView, nat), SchemaError>(e),
        }),
    decreases b@.len() - pos, 0int,
{
    let (tag, p1) = match read_u8(b, pos) {
        Ok(x) => x,
        Err(e) => {
            return Err(e);
        },
    };
    match tag {
        0u8 => Ok((Type::Unit, p1)),
        1u8 => Ok((Type::Bool, p1)),
        2u8 => Ok((Type::U8, p1)),
        3u8 => Ok((Type::U16, p1)),
        4u8 => Ok((Type::U32, p1)),
        5u8 => Ok((Type::U64, p1)),
        6u8 => Ok((Type::I8, p1)),
        7u8 => Ok((Type::I16, p1)),
        8u8 => Ok((Type::I32, p1)),
        9u8 => Ok((Type::I64, p1)),
        10u8 => Ok((Type::Amount, p1)),
        11u8 => Ok((Type::AccountAddress, p1)),
        12u8 => Ok((Type::ContractAddress, p1)),
        13u8 => Ok((Type::Timestamp, p1)),
        14u8 => Ok((Type::Duration, p1)),
        15u8 => {
            let (a, p2) = match decode_type(b, p1) {
                Ok(x) => x,
                Err(e) => {
                    return Err(e);
                },
            };
            let (c, p3) = match decode_type(b, p2) {
                Ok(x) => x,
                Err(e) => {
                    return Err(e);
                },
            };
            Ok((Type::Pair(Box::new(a), Box::new(c)), p3))
        },
        16u8 => {
            let (sl, p2) = match decode_size_length(b, p1) {
                Ok(x) => x,
                Err(e) => {
                    return Err(e);
                },
            };
            let (t, p3) = match decode_type(b, p2) {
                Ok(x) => x,
                Err(e) => {
                    return Err(e);
                },
            };
            Ok((Type::List(sl, Box::new(t)), p3))
        },
        17u8 => {
            let (sl, p2) = match decode_size_length(b, p1) {
                Ok(x) => x,
                Err(e) => {
                    return Err(e);
                },
            };
            let (t, p3) = match decode_type(b, p2) {
                Ok(x) => x,
                Err(e) => {
                    return Err(e);
                },
            };
            Ok((Type::SetOf(sl, Box::new(t)), p3))
        },
        18u8 => {
            let (sl, p2) = match decode_size_length(b, p1) {
                Ok(x) => x,
                Err(e) => {
                    return Err(e);
                },
            };
            let (k, p3) = match decode_type(b, p2) {
                Ok(x) => x,
                Err(e) => {
                    return Err(e);
                },
            };
            let (v, p4) = match decode_type(b, p3) {
                Ok(x) => x,
                Err(e) => {
                    return Err(e);
                },
            };
            Ok((Type::MapOf(sl, Box::new(k), Box::new(v)), p4))
        },
        19u8 => {
            let (n, p2) = match read_u32(b, p1) {
                Ok(x) => x,
                Err(e) => {
                    return Err(e);
                },
            };
            let (t, p3) = match decode_type(b, p2) {
                Ok(x) => x,
                Err(e) => {
                    return Err(e);
                },
            };
            Ok((Type::Array(n, Box::new(t)), p3))
        },
        20u8 => {
            let (f, p2) = match decode_fields(b, p1) {
                Ok(x) => x,
                Err(e) => {
                    return Err(e);
                },
            };
            Ok((Type::Struct(f), p2))
        },
        21u8 => {
            let (count, p2) = match read_u32(b, p1) {
                Ok(x) => x,
                Err(e) => {
                    return Err(e);
                },
            };
            let (vs, p3) = match decode_enum_variants(b, p2, count) {
                Ok(x) => x,
                Err(e) => {
                    return Err(e);
                },
            };
            Ok((Type::Enum(vs), p3))
        },
        22u8 => {
            let (sl, p2) = match decode_size_length(b, p1) {
                Ok(x) => x,
                Err(e) => {
                    return Err(e);
                },
            };
            Ok((Type::Text(sl), p2))
        },
        23u8 => Ok((Type::U128, p1)),
        24u8 => Ok((Type::I128, p1)),
        25u8 => {
            let (sl, p2) = match decode_size_length(b, p1) {
                Ok(x) => x,
                Err(e) => {
                    return Err(e);
                },
            };
            Ok((Type::ContractName(sl), p2))
        },
        26u8 => {
            let (sl, p2) = match decode_size_length(b, p1) {
                Ok(x) => x,
                Err(e) => {
                    return Err(e);
                },
            };
            Ok((Type::ReceiveName(sl), p2))
        },
        27u8 => {
            let (n, p2) = match read_u8(b, p1) {
                Ok(x) => x,
                Err(e) => {
                    return Err(e);
                },
            };
            Ok((Type::ULeb128(n), p2))
        },
        28u8 => {
            let (n, p2) = match read_u8(b, p1) {
                Ok(x) => x,
                Err(e) => {
                    return Err(e);
                },
            };
            Ok((Type::ILeb128(n), p2))
        },
        29u8 => {
            let (sl, p2) = match decode_size_length(b, p1) {
                Ok(x) => x,
                Err(e) => {
                    return Err(e);
                },
            };
            Ok((Type::ByteList(sl), p2))
        },
        30u8 => {
            let (n, p2) = match read_u32(b, p1) {
                Ok(x) => x,
                Err(e) => {
                    return Err(e);
                },
            };
            Ok((Type::ByteArray(n), p2))
        },
        31u8 => {
            let (count, p2) = match read_u32(b, p1) {
                Ok(x) => x,
                Err(e) => {
                    return Err(e);
                },
            };
            let (vs, p3) = match decode_tagged_variants(b, p2, count) {
                Ok(x) => x,
                Err(e) => {
                    return Err(e);
                },
            };
            Ok((Type::TaggedEnum(vs), p3))
        },
        _ => Err(SchemaError::UnknownTypeTag { tag, offset: pos }),
    }
}

/// Decodes a field-shape descriptor.
pub fn decode_fields(b: &Vec<u8>, pos: usize) -> (r: Result<(Fields, usize), SchemaError>)
    ensures
        (match r {
            Ok((f, p)) => sd_fields(b@, pos as nat) == Ok::<(FieldsView, nat), SchemaError>(
                (f@, p as nat),
            ) && pos < p && p <= b@.len(),
            Err(e) => sd_fields(b@, pos as nat) == Err::<(FieldsView, nat), SchemaError>(e),
        }),
    decreases b@.len() - pos, 0int,
{
    let (d, p1) = match read_u8(b, pos) {
        Ok(x) => x,
        Err(e) => {
            return Err(e);
        },
    };
    match d {
        0u8 => {
            let (count, p2) = match read_u32(b, p1) {
                Ok(x) => x,
                Err(e) => {
                    return Err(e);
                },
            };
            let (fs, p3) = match decode_named_fields(b, p2, count) {
                Ok(x) => x,
                Err(e) => {
                    return Err(e);
                },
            };
            Ok((Fields::Named(fs), p3))
        },
        1u8 => {
            let (count, p2) = match read_u32(b, p1) {
                Ok(x) => x,
                Err(e) => {
                    return Err(e);
                },
            };
            let (ts, p3) = match decode_unnamed_fields(b, p2, count) {
                Ok(x) => x,
                Err(e) => {
                    return Err(e);
                },
            };
            Ok((Fields::Unnamed(ts), p3))
        },
        2u8 => Ok((Fields::Empty, p1)),
        _ => Err(SchemaError::MalformedSchema { offset: pos }),
    }
}

/// Decodes `count` named fields, kept in wire order.
pub fn decode_named_fields(b: &Vec<u8>, pos: usize, count: u32) -> (r: Result<
    (Vec<(Vec<u8>, Type)>, usize),
    SchemaError,
>)
    requires
        pos <= b@.len(),
    ensures
        (match r {
            Ok((fs, p)) => sd_named_fields(b@, pos as nat, count as nat) == Ok::<
                (Seq<(Seq<u8>, TypeView)>, nat),
                SchemaError,
            >((named_fields_view(fs@), p as nat)) && pos <= p && p <= b@.len() && pos
                <= b@.len(),
            Err(e) => sd_named_fields(b@, pos as nat, count as nat) == Err::<
                (Seq<(Seq<u8>, TypeView)>, nat),
                SchemaError,
            >(e),
        }),
    decreases b@.len() - pos, 1int,
{
    if count == 0 {
        let fs: Vec<(Vec<u8>, Type)> = Vec::new();
        proof {
            assert(named_fields_view(fs@) =~= Seq::<(Seq<u8>, TypeView)>::empty());
        }
        Ok((fs, pos))
    } else {
        let (n, p1) = match decode_name(b, pos) {
            Ok(x) => x,
            Err(e) => {
                return Err(e);
            },
        };
        let (t, p2) = match decode_type(b, p1) {
            Ok(x) => x,
            Err(e) => {
                return Err(e);
            },
        };
        let (mut rest, p3) = match decode_named_fields(b, p2, count - 1) {
            Ok(x) => x,
            Err(e) => {
                return Err(e);
            },
        };
        let ghost rest0 = rest@;
        rest.insert(0, (n, t));
        proof {
            lemma_named_fields_view(rest0);
            lemma_named_fields_view(rest@);
            assert(rest@ =~= seq![(n, t)] + rest0);
            assert(named_fields_view(rest@) =~= seq![(n@, type_view(t))] + named_fields_view(
                rest0,
            ));
        }
        Ok((rest, p3))
    }
}

/// Decodes `count` positional fields, kept in wire order.
pub fn decode_unnamed_fields(b: &Vec<u8>, pos: usize, count: u32) -> (r: Result<
    (Vec<Type>, usize),
    SchemaError,
>)
    requires
        pos <= b@.len(),
    ensures
        (match r {
            Ok((ts, p)) => sd_unnamed_fields(b@, pos as nat, count as nat) == Ok::<
                (Seq<TypeView>, nat),
                SchemaError,
            >((unnamed_fields_view(ts@), p as nat)) && pos <= p && p <= b@.len(),
            Err(e) => sd_unnamed_fields(b@, pos as nat, count as nat) == Err::<
                (Seq<TypeView>, nat),
                SchemaError,
            >(e),
        }),
    decreases b@.len() - pos, 2int,
{
    if count == 0 {
        let ts: Vec<Type> = Vec::new();
        proof {
            assert(unnamed_fields_view(ts@) =~= Seq::<TypeView>::empty());
        }
        Ok((ts, pos))
    } else {
        let (t, p1) = match decode_type(b, pos) {
            Ok(x) => x,
            Err(e) => {
                return Err(e);
            },
        };
        let (mut rest, p2) = match decode_unnamed_fields(b, p1, count - 1) {
            Ok(x) => x,
            Err(e) => {
                return Err(e);
            },
        };
        let ghost rest0 = rest@;
        rest.insert(0, t);
        proof {
            lemma_unnamed_fields_view(rest0);
            lemma_unnamed_fields_view(rest@);
            assert(rest@ =~= seq![t] + rest0);
            assert(unnamed_fields_view(rest@) =~= seq![type_view(t)] + unnamed_fields_view(
                rest0,
            ));
        }
        Ok((rest, p2))
    }
}

/// Decodes `count` enum variants, kept in wire order.
pub fn decode_enum_variants(b: &Vec<u8>, pos: usize, count: u32) -> (r: Result<
    (Vec<(Vec<u8>, Fields)>, usize),
    SchemaError,
>)
    requires
        pos <= b@.len(),
    ensures
        (match r {
            Ok((vs, p)) => sd_enum_variants(b@, pos as nat, count as nat) == Ok::<
                (Seq<(Seq<u8>, FieldsView)>, nat),
                SchemaError,
            >((enum_variants_view(vs@), p as nat)) && pos <= p && p <= b@.len(),
            Err(e) => sd_enum_variants(b@, pos as nat, count as nat) == Err::<
                (Seq<(Seq<u8>, FieldsView)>, nat),
                SchemaError,
            >(e),
        }),
    decreases b@.len() - pos, 1int,
{
    if count == 0 {
        let vs: Vec<(Vec<u8>, Fields)> = Vec::new();
        proof {
            assert(enum_variants_view(vs@) =~= Seq::<(Seq<u8>, FieldsView)>::empty());
        }
        Ok((vs, pos))
    } else {
        let (n, p1) = match decode_name(b, pos) {
            Ok(x) => x,
            Err(e) => {
                return Err(e);
            },
        };
        let (f, p2) = match decode_fields(b, p1) {
            Ok(x) => x,
            Err(e) => {
                return Err(e);
            },
        };
        let (mut rest, p3) = match decode_enum_variants(b, p2, count - 1) {
            Ok(x) => x,
            Err(e) => {
                return Err(e);
            },
        };
        let ghost rest0 = rest@;
        rest.insert(0, (n, f));
        proof {
            lemma_enum_variants_view(rest0);
            lemma_enum_variants_view(rest@);
            assert(rest@ =~= seq![(n, f)] + rest0);
            assert(enum_variants_view(rest@) =~= seq![(n@, fields_view(f))] + enum_variants_view(
                rest0,
            ));
        }
        Ok((rest, p3))
    }
}

/// Decodes `count` tagged-enum variants into a tag-sorted vector; a duplicate
/// tag is malformed.
pub fn decode_tagged_variants(b: &Vec<u8>, pos: usize, count: u32) -> (r: Result<
    (Vec<(u8, Vec<u8>, Fields)>, usize),
    SchemaError,
>)
    requires
        pos <= b@.len(),
    ensures
        (match r {
            Ok((vs, p)) => sd_tagged_variants(b@, pos as nat, count as nat) == Ok::<
                (Seq<(u8, Seq<u8>, FieldsView)>, nat),
                SchemaError,
            >((tagged_variants_view(vs@), p as nat)) && pos <= p && p <= b@.len(),
            Err(e) => sd_tagged_variants(b@, pos as nat, count as nat) == Err::<
                (Seq<(u8, Seq<u8>, FieldsView)>, nat),
                SchemaError,
            >(e),
        }),
    decreases b@.len() - pos, 1int,
{
    if count == 0 {
        let vs: Vec<(u8, Vec<u8>, Fields)> = Vec::new();
        proof {
            assert(tagged_variants_view(vs@) =~= Seq::<(u8, Seq<u8>, FieldsView)>::empty());
        }
        Ok((vs, pos))
    } else {
        let (tag, p1) = match read_u8(b, pos) {
            Ok(x) => x,
            Err(e) => {
                return Err(e);
            },
        };
        let (n, p2) = match decode_name(b, p1) {
            Ok(x) => x,
            Err(e) => {
                return Err(e);
            },
        };
        let (f, p3) = match decode_fields(b, p2) {
            Ok(x) => x,
            Err(e) => {
                return Err(e);
            },
        };
        let (rest, p4) = match decode_tagged_variants(b, p3, count - 1) {
            Ok(x) => x,
            Err(e) => {
                return Err(e);
            },
        };
        match insert_tagged(tag, n, f, rest) {
            Ok(out) => Ok((out, p4)),
            Err(_) => Err(SchemaError::MalformedSchema { offset: pos }),
        }
    }
}

/// Specification decoder for an optional type: presence flag, then the type.
pub open spec fn sd_opt_type(b: Seq<u8>, pos: nat) -> Result<(Option<TypeView>, nat), SchemaError> {
    match sd_presence(b, pos) {
        Err(e) => Err(e),
        Ok((false, p1)) => Ok((Option::None, p1)),
        Ok((true, p1)) => match sd_type(b, p1) {
            Err(e) => Err(e),
            Ok((t, p2)) => Ok((Option::Some(t), p2)),
        },
    }
}

/// Specification decoder for a first-generation function schema: optional
/// parameter, then optional return value, in that order.
pub open spec fn sd_function_v1(b: Seq<u8>, pos: nat) -> Result<(FunctionV1View, nat), SchemaError> {
    match sd_opt_type(b, pos) {
        Err(e) => Err(e),
        Ok((parameter, p1)) => match sd_opt_type(b, p1) {
            Err(e) => Err(e),
            Ok((return_value, p2)) => Ok((FunctionV1View { parameter, return_value }, p2)),
        },
    }
}

/// Specification decoder for a later-generation function schema: optional
/// parameter, optional return value, optional error, in that order.
pub open spec fn sd_function_v2(b: Seq<u8>, pos: nat) -> Result<(FunctionV2View, nat), SchemaError> {
    match sd_opt_type(b, pos) {
        Err(e) => Err(e),
        Ok((parameter, p1)) => match sd_opt_type(b, p1) {
            Err(e) => Err(e),
            Ok((return_value, p2)) => match sd_opt_type(b, p2) {
                Err(e) => Err(e),
                Ok((error, p3)) => Ok((
                    FunctionV2View { parameter, return_value, error },
                    p3,
                )),
            },
        },
    }
}

/// Specification decoder for an optional first-generation function schema.
pub open spec fn sd_opt_function_v1(b: Seq<u8>, pos: nat) -> Result<
    (Option<FunctionV1View>, nat),
    SchemaError,
> {
    match sd_presence(b, pos) {
        Err(e) => Err(e),
        Ok((false, p1)) => Ok((Option::None, p1)),
        Ok((true, p1)) => match sd_function_v1(b, p1) {
            Err(e) => Err(e),
            Ok((f, p2)) => Ok((Option::Some(f), p2)),
        },
    }
}

/// Specification decoder for an optional later-generation function schema.
pub open spec fn sd_opt_function_v2(b: Seq<u8>, pos: nat) -> Result<
    (Option<FunctionV2View>, nat),
    SchemaError,
> {
    match sd_presence(b, pos) {
        Err(e) => Err(e),
        Ok((false, p1)) => Ok((Option::None, p1)),
        Ok((true, p1)) => match sd_function_v2(b, p1) {
            Err(e) => Err(e),
            Ok((f, p2)) => Ok((Option::Some(f), p2)),
        },
    }
}

/// Specification decoder for `count` generation-0 receive entrypoints, sorted
/// by name; a duplicate name is malformed.
pub open spec fn sd_receive_v0(b: Seq<u8>, pos: nat, count: nat) -> Result<
    (Seq<(Seq<u8>, TypeView)>, nat),
    SchemaError,
>
    decreases count,
{
    if count == 0 {
        Ok((Seq::empty(), pos))
    } else {
        match sd_name(b, pos) {
            Err(e) => Err(e),
            Ok((n, p1)) => match sd_type(b, p1) {
                Err(e) => Err(e),
                Ok((t, p2)) => match sd_receive_v0(b, p2, (count - 1) as nat) {
                    Err(e) => Err(e),
                    Ok((rest, p3)) => match spec_insert(n, t, rest) {
                        Option::Some(out) => Ok((out, p3)),
                        Option::None => Err(SchemaError::MalformedSchema { offset: pos as usize }),
                    },
                },
            },
        }
    }
}

/// Specification decoder for `count` generation-1 receive entrypoints.
pub open spec fn sd_receive_v1(b: Seq<u8>, pos: nat, count: nat) -> Result<
    (Seq<(Seq<u8>, FunctionV1View)>, nat),
    SchemaError,
>
    decreases count,
{
    if count == 0 {
        Ok((Seq::empty(), pos))
    } else {
        match sd_name(b, pos) {
            Err(e) => Err(e),
            Ok((n, p1)) => match sd_function_v1(b, p1) {
                Err(e) => Err(e),
                Ok((f, p2)) => match sd_receive_v1(b, p2, (count - 1) as nat) {
                    Err(e) => Err(e),
                    Ok((rest, p3)) => match spec_insert(n, f, rest) {
                        Option::Some(out) => Ok((out, p3)),
                        Option::None => Err(SchemaError::MalformedSchema { offset: pos as usize }),
                    },
                },
            },
        }
    }
}

/// Specification decoder for `count` generation-2 or generation-3 receive
/// entrypoints.
pub open spec fn sd_receive_v2(b: Seq<u8>, pos: nat, count: nat) -> Result<
    (Seq<(Seq<u8>, FunctionV2View)>, nat),
    SchemaError,
>
    decreases count,
{
    if count == 0 {
        Ok((Seq::empty(), pos))
    } else {
        match sd_name(b, pos) {
            Err(e) => Err(e),
            Ok((n, p1)) => match sd_function_v2(b, p1) {
                Err(e) => Err(e),
                Ok((f, p2)) => match sd_receive_v2(b, p2, (count - 1) as nat) {
                    Err(e) => Err(e),
                    Ok((rest, p3)) => match spec_insert(n, f, rest) {
                        Option::Some(out) => Ok((out, p3)),
                        Option::None => Err(SchemaError::MalformedSchema { offset: pos as usize }),
                    },
                },
            },
        }
    }
}

/// Specification decoder for a generation-0 contract schema: optional init
/// type, optional state type, then the receive map.
pub open spec fn sd_contract_v0(b: Seq<u8>, pos: nat) -> Result<(ContractV0View, nat), SchemaError> {
    match sd_opt_type(b, pos) {
        Err(e) => Err(e),
        Ok((init, p1)) => match sd_opt_type(b, p1) {
            Err(e) => Err(e),
            Ok((state, p2)) => match sd_u32(b, p2) {
                Err(e) => Err(e),
                Ok((count, p3)) => match sd_receive_v0(b, p3, count) {
                    Err(e) => Err(e),
                    Ok((receive, p4)) => Ok((ContractV0View { init, state, receive }, p4)),
                },
            },
        },
    }
}

/// Specification decoder for a generation-1 contract schema.
pub open spec fn sd_contract_v1(b: Seq<u8>, pos: nat) -> Result<(ContractV1View, nat), SchemaError> {
    match sd_opt_function_v1(b, pos) {
        Err(e) => Err(e),
        Ok((init, p1)) => match sd_u32(b, p1) {
            Err(e) => Err(e),
            Ok((count, p2)) => match sd_receive_v1(b, p2, count) {
                Err(e) => Err(e),
                Ok((receive, p3)) => Ok((ContractV1View { init, receive }, p3)),
            },
        },
    }
}

/// Specification decoder for a generation-2 contract schema.
pub open spec fn sd_contract_v2(b: Seq<u8>, pos: nat) -> Result<(ContractV2View, nat), SchemaError> {
    match sd_opt_function_v2(b, pos) {
        Err(e) => Err(e),
        Ok((init, p1)) => match sd_u32(b, p1) {
            Err(e) => Err(e),
            Ok((count, p2)) => match sd_receive_v2(b, p2, count) {
                Err(e) => Err(e),
                Ok((receive, p3)) => Ok((ContractV2View { init, receive }, p3)),
            },
        },
    }
}

/// Specification decoder for a generation-3 contract schema: optional init,
/// optional event type, then the receive map.
pub open spec fn sd_contract_v3(b: Seq<u8>, pos: nat) -> Result<(ContractV3View, nat), SchemaError> {
    match sd_opt_function_v2(b, pos) {
        Err(e) => Err(e),
        Ok((init, p1)) => match sd_opt_type(b, p1) {
            Err(e) => Err(e),
            Ok((event, p2)) => match sd_u32(b, p2) {
                Err(e) => Err(e),
                Ok((count, p3)) => match sd_receive_v2(b, p3, count) {
                    Err(e) => Err(e),
                    Ok((receive, p4)) => Ok((ContractV3View { init, event, receive }, p4)),
                },
            },
        },
    }
}

/// Specification decoder for `count` generation-0 contracts, sorted by name;
/// a duplicate name is malformed.
pub open spec fn sd_contracts_v0(b: Seq<u8>, pos: nat, count: nat) -> Result<
    (Seq<(Seq<u8>, ContractV0View)>, nat),
    SchemaError,
>
    decreases count,
{
    if count == 0 {
        Ok((Seq::empty(), pos))
    } else {
        match sd_name(b, pos) {
            Err(e) => Err(e),
            Ok((n, p1)) => match sd_contract_v0(b, p1) {
                Err(e) => Err(e),
                Ok((c, p2)) => match sd_contracts_v0(b, p2, (count - 1) as nat) {
                    Err(e) => Err(e),
                    Ok((rest, p3)) => match spec_insert(n, c, rest) {
                        Option::Some(out) => Ok((out, p3)),
                        Option::None => Err(SchemaError::MalformedSchema { offset: pos as usize }),
                    },
                },
            },
        }
    }
}

/// Specification decoder for `count` generation-1 contracts.
pub open spec fn sd_contracts_v1(b: Seq<u8>, pos: nat, count: nat) -> Result<
    (Seq<(Seq<u8>, ContractV1View)>, nat),
    SchemaError,
>
    decreases count,
{
    if count == 0 {
        Ok((Seq::empty(), pos))
    } else {
        match sd_name(b, pos) {
            Err(e) => Err(e),
            Ok((n, p1)) => match sd_contract_v1(b, p1) {
                Err(e) => Err(e),
                Ok((c, p2)) => match sd_contracts_v1(b, p2, (count - 1) as nat) {
                    Err(e) => Err(e),
                    Ok((rest, p3)) => match spec_insert(n, c, rest) {
                        Option::Some(out) => Ok((out, p3)),
                        Option::None => Err(SchemaError::MalformedSchema { offset: pos as usize }),
                    },
                },
            },
        }
    }
}

/// Specification decoder for `count` generation-2 contracts.
pub open spec fn sd_contracts_v2(b: Seq<u8>, pos: nat, count: nat) -> Result<
    (Seq<(Seq<u8>, ContractV2View)>, nat),
    SchemaError,
>
    decreases count,
{
    if count == 0 {
        Ok((Seq::empty(), pos))
    } else {
        match sd_name(b, pos) {
            Err(e) => Err(e),
            Ok((n, p1)) => match sd_contract_v2(b, p1) {
                Err(e) => Err(e),
                Ok((c, p2)) => match sd_contracts_v2(b, p2, (count - 1) as nat) {
                    Err(e) => Err(e),
                    Ok((rest, p3)) => match spec_insert(n, c, rest) {
                        Option::Some(out) => Ok((out, p3)),
                        Option::None => Err(SchemaError::MalformedSchema { offset: pos as usize }),
                    },
                },
            },
        }
    }
}

/// Specification decoder for `count` generation-3 contracts.
pub open spec fn sd_contracts_v3(b: Seq<u8>, pos: nat, count: nat) -> Result<
    (Seq<(Seq<u8>, ContractV3View)>, nat),
    SchemaError,
>
    decreases count,
{
    if count == 0 {
        Ok((Seq::empty(), pos))
    } else {
        match sd_name(b, pos) {
            Err(e) => Err(e),
            Ok((n, p1)) => match sd_contract_v3(b, p1) {
                Err(e) => Err(e),
                Ok((c, p2)) => match sd_contracts_v3(b, p2, (count - 1) as nat) {
                    Err(e) => Err(e),
                    Ok((rest, p3)) => match spec_insert(n, c, rest) {
                        Option::Some(out) => Ok((out, p3)),
                        Option::None => Err(SchemaError::MalformedSchema { offset: pos as usize }),
                    },
                },
            },
        }
    }
}

/// Specification decoder for a module body of the given generation: a
/// four-byte contract count, then that many (name, contract) pairs.
pub open spec fn sd_module_v0(b: Seq<u8>, pos: nat) -> Result<
    (Seq<(Seq<u8>, ContractV0View)>, nat),
    SchemaError,
> {
    match sd_u32(b, pos) {
        Err(e) => Err(e),
        Ok((count, p1)) => sd_contracts_v0(b, p1, count),
    }
}

/// Specification decoder for a generation-1 module body.
pub open spec fn sd_module_v1(b: Seq<u8>, pos: nat) -> Result<
    (Seq<(Seq<u8>, ContractV1View)>, nat),
    SchemaError,
> {
    match sd_u32(b, pos) {
        Err(e) => Err(e),
        Ok((count, p1)) => sd_contracts_v1(b, p1, count),
    }
}

/// Specification decoder for a generation-2 module body.
pub open spec fn sd_module_v2(b: Seq<u8>, pos: nat) -> Result<
    (Seq<(Seq<u8>, ContractV2View)>, nat),
    SchemaError,
> {
    match sd_u32(b, pos) {
        Err(e) => Err(e),
        Ok((count, p1)) => sd_contracts_v2(b, p1, count),
    }
}

/// Specification decoder for a generation-3 module body.
pub open spec fn sd_module_v3(b: Seq<u8>, pos: nat) -> Result<
    (Seq<(Seq<u8>, ContractV3View)>, nat),
    SchemaError,
> {
    match sd_u32(b, pos) {
        Err(e) => Err(e),
        Ok((count, p1)) => sd_contracts_v3(b, p1, count),
    }
}

/// Whether a byte sequence starts with the versioned-schema magic prefix.
pub open spec fn has_magic(b: Seq<u8>) -> bool {
    b.len() >= 2 && b[0] == 0xffu8 && b[1] == 0xffu8
}

/// What `parse_schema` returns: a version-tagged stream (magic prefix
/// `0xFF 0xFF`) carries its own generation tag; a legacy stream needs the
/// caller's generation hint and predates the later two generations. Trailing
/// bytes after a fully decoded module are not an error.
pub open spec fn spec_parse_schema(hint: Option<WasmVersion>, b: Seq<u8>) -> Result<
    ModuleSchemaView,
    SchemaError,
> {
    if has_magic(b) {
        match sd_u8(b, 2) {
            Err(e) => Err(e),
            Ok((g, p1)) => match g {
                0u8 => match sd_module_v0(b, p1) {
                    Err(e) => Err(e),
                    Ok((cs, _p)) => Ok(ModuleSchemaView::V0(cs)),
                },
                1u8 => match sd_module_v1(b, p1) {
                    Err(e) => Err(e),
                    Ok((cs, _p)) => Ok(ModuleSchemaView::V1(cs)),
                },
                2u8 => match sd_module_v2(b, p1) {
                    Err(e) => Err(e),
                    Ok((cs, _p)) => Ok(ModuleSchemaView::V2(cs)),
                },
                3u8 => match sd_module_v3(b, p1) {
                    Err(e) => Err(e),
                    Ok((cs, _p)) => Ok(ModuleSchemaView::V3(cs)),
                },
                _ => Err(SchemaError::MalformedSchema { offset: 2 }),
            },
        }
    } else {
        match hint {
            Option::None => Err(SchemaError::MissingVersionHint),
            Option::Some(WasmVersion::V0) => match sd_module_v0(b, 0) {
                Err(e) => Err(e),
                Ok((cs, _p)) => Ok(ModuleSchemaView::V0(cs)),
            },
            Option::Some(WasmVersion::V1) => match sd_module_v1(b, 0) {
                Err(e) => Err(e),
                Ok((cs, _p)) => Ok(ModuleSchemaView::V1(cs)),
            },
        }
    }
}

/// Decodes an optional type: presence flag, then the type if present.
pub fn decode_opt_type(b: &Vec<u8>, pos: usize) -> (r: Result<(Option<Type>, usize), SchemaError>)
    ensures
        (match r {
            Ok((o, p)) => sd_opt_type(b@, pos as nat) == Ok::<(Option<TypeView>, nat), SchemaError>(
                (opt_type_view(o), p as nat),
            ) && pos < p && p <= b@.len(),
            Err(e) => sd_opt_type(b@, pos as nat) == Err::<(Option<TypeView>, nat), SchemaError>(e),
        }),
{
    let (present, p1) = match decode_presence(b, pos) {
        Ok(x) => x,
        Err(e) => {
            return Err(e);
        },
    };
    if present {
        let (t, p2) = match decode_type(b, p1) {
            Ok(x) => x,
            Err(e) => {
                return Err(e);
            },
        };
        Ok((Option::Some(t), p2))
    } else {
        Ok((Option::None, p1))
    }
}

/// Decodes a first-generation function schema.
pub fn decode_function_v1(b: &Vec<u8>, pos: usize) -> (r: Result<(FunctionV1, usize), SchemaError>)
    ensures
        (match r {
            Ok((f, p)) => sd_function_v1(b@, pos as nat) == Ok::<
                (FunctionV1View, nat),
                SchemaError,
            >((f@, p as nat)) && pos < p && p <= b@.len(),
            Err(e) => sd_function_v1(b@, pos as nat) == Err::<(FunctionV1View, nat), SchemaError>(
                e,
            ),
        }),
{
    let (parameter, p1) = match decode_opt_type(b, pos) {
        Ok(x) => x,
        Err(e) => {
            return Err(e);
        },
    };
    let (return_value, p2) = match decode_opt_type(b, p1) {
        Ok(x) => x,
        Err(e) => {
            return Err(e);
        },
    };
    Ok((FunctionV1 { parameter, return_value }, p2))
}

/// Decodes a later-generation function schema.
pub fn decode_function_v2(b: &Vec<u8>, pos: usize) -> (r: Result<(FunctionV2, usize), SchemaError>)
    ensures
        (match r {
            Ok((f, p)) => sd_function_v2(b@, pos as nat) == Ok::<
                (FunctionV2View, nat),
                SchemaError,
            >((f@, p as nat)) && pos < p && p <= b@.len(),
            Err(e) => sd_function_v2(b@, pos as nat) == Err::<(FunctionV2View, nat), SchemaError>(
                e,
            ),
        }),
{
    let (parameter, p1) = match decode_opt_type(b, pos) {
        Ok(x) => x,
        Err(e) => {
            return Err(e);
        },
    };
    let (return_value, p2) = match decode_opt_type(b, p1) {
        Ok(x) => x,
        Err(e) => {
            return Err(e);
        },
    };
    let (error, p3) = match decode_opt_type(b, p2) {
        Ok(x) => x,
        Err(e) => {
            return Err(e);
        },
    };
    Ok((FunctionV2 { parameter, return_value, error }, p3))
}

/// Decodes an optional first-generation function schema.
pub fn decode_opt_function_v1(b: &Vec<u8>, pos: usize) -> (r: Result<
    (Option<FunctionV1>, usize),
    SchemaError,
>)
    ensures
        (match r {
            Ok((o, p)) => sd_opt_function_v1(b@, pos as nat) == Ok::<
                (Option<FunctionV1View>, nat),
                SchemaError,
            >((
                match o {
                    Option::None => Option::None,
                    Option::Some(f) => Option::Some(f@),
                },
                p as nat,
            )) && pos < p && p <= b@.len(),
            Err(e) => sd_opt_function_v1(b@, pos as nat) == Err::<
                (Option<FunctionV1View>, nat),
                SchemaError,
            >(e),
        }),
{
    let (present, p1) = match decode_presence(b, pos) {
        Ok(x) => x,
        Err(e) => {
            return Err(e);
        },
    };
    if present {
        let (f, p2) = match decode_function_v1(b, p1) {
            Ok(x) => x,
            Err(e) => {
                return Err(e);
            },
        };
        Ok((Option::Some(f), p2))
    } else {
        Ok((Option::None, p1))
    }
}

/// Decodes an optional later-generation function schema.
pub fn decode_opt_function_v2(b: &Vec<u8>, pos: usize) -> (r: Result<
    (Option<FunctionV2>, usize),
    SchemaError,
>)
    ensures
        (match r {
            Ok((o, p)) => sd_opt_function_v2(b@, pos as nat) == Ok::<
                (Option<FunctionV2View>, nat),
                SchemaError,
            >((
                match o {
                    Option::None => Option::None,
                    Option::Some(f) => Option::Some(f@),
                },
                p as nat,
            )) && pos < p && p <= b@.len(),
            Err(e) => sd_opt_function_v2(b@, pos as nat) == Err::<
                (Option<FunctionV2View>, nat),
                SchemaError,
            >(e),
        }),
{
    let (present, p1) = match decode_presence(b, pos) {
        Ok(x) => x,
        Err(e) => {
            return Err(e);
        },
    };
    if present {
        let (f, p2) = match decode_function_v2(b, p1) {
            Ok(x) => x,
            Err(e) => {
                return Err(e);
            },
        };
        Ok((Option::Some(f), p2))
    } else {
        Ok((Option::None, p1))
    }
}

/// Decodes `count` generation-0 receive entrypoints into a name-sorted map.
pub fn decode_receive_v0(b: &Vec<u8>, pos: usize, count: u32) -> (r: Result<
    (Vec<(Vec<u8>, Type)>, usize),
    SchemaError,
>)
    requires
        pos <= b@.len(),
    ensures
        (match r {
            Ok((v, p)) => sd_receive_v0(b@, pos as nat, count as nat) == Ok::<
                (Seq<(Seq<u8>, TypeView)>, nat),
                SchemaError,
            >((entries_view(v@), p as nat)) && pos <= p && p <= b@.len(),
            Err(e) => sd_receive_v0(b@, pos as nat, count as nat) == Err::<
                (Seq<(Seq<u8>, TypeView)>, nat),
                SchemaError,
            >(e),
        }),
    decreases count,
{
    if count == 0 {
        let v: Vec<(Vec<u8>, Type)> = Vec::new();
        proof {
            assert(entries_view(v@) =~= Seq::<(Seq<u8>, TypeView)>::empty());
        }
        Ok((v, pos))
    } else {
        let (n, p1) = match decode_name(b, pos) {
            Ok(x) => x,
            Err(e) => {
                return Err(e);
            },
        };
        let (t, p2) = match decode_type(b, p1) {
            Ok(x) => x,
            Err(e) => {
                return Err(e);
            },
        };
        let (rest, p3) = match decode_receive_v0(b, p2, count - 1) {
            Ok(x) => x,
            Err(e) => {
                return Err(e);
            },
        };
        match insert_entry(n, t, rest) {
            Ok(out) => Ok((out, p3)),
            Err(_) => Err(SchemaError::MalformedSchema { offset: pos }),
        }
    }
}

/// Decodes `count` generation-1 receive entrypoints into a name-sorted map.
pub fn decode_receive_v1(b: &Vec<u8>, pos: usize, count: u32) -> (r: Result<
    (Vec<(Vec<u8>, FunctionV1)>, usize),
    SchemaError,
>)
    requires
        pos <= b@.len(),
    ensures
        (match r {
            Ok((v, p)) => sd_receive_v1(b@, pos as nat, count as nat) == Ok::<
                (Seq<(Seq<u8>, FunctionV1View)>, nat),
                SchemaError,
            >((entries_view(v@), p as nat)) && pos <= p && p <= b@.len(),
            Err(e) => sd_receive_v1(b@, pos as nat, count as nat) == Err::<
                (Seq<(Seq<u8>, FunctionV1View)>, nat),
                SchemaError,
            >(e),
        }),
    decreases count,
{
    if count == 0 {
        let v: Vec<(Vec<u8>, FunctionV1)> = Vec::new();
        proof {
            assert(entries_view(v@) =~= Seq::<(Seq<u8>, FunctionV1View)>::empty());
        }
        Ok((v, pos))
    } else {
        let (n, p1) = match decode_name(b, pos) {
            Ok(x) => x,
            Err(e) => {
                return Err(e);
            },
        };
        let (f, p2) = match decode_function_v1(b, p1) {
            Ok(x) => x,
            Err(e) => {
                return Err(e);
            },
        };
        let (rest, p3) = match decode_receive_v1(b, p2, count - 1) {
            Ok(x) => x,
            Err(e) => {
                return Err(e);
            },
        };
        match insert_entry(n, f, rest) {
            Ok(out) => Ok((out, p3)),
            Err(_) => Err(SchemaError::MalformedSchema { offset: pos }),
        }
    }
}

/// Decodes `count` generation-2 or generation-3 receive entrypoints into a
/// name-sorted map.
pub fn decode_receive_v2(b: &Vec<u8>, pos: usize, count: u32) -> (r: Result<
    (Vec<(Vec<u8>, FunctionV2)>, usize),
    SchemaError,
>)
    requires
        pos <= b@.len(),
    ensures
        (match r {
            Ok((v, p)) => sd_receive_v2(b@, pos as nat, count as nat) == Ok::<
                (Seq<(Seq<u8>, FunctionV2View)>, nat),
                SchemaError,
            >((entries_view(v@), p as nat)) && pos <= p && p <= b@.len(),
            Err(e) => sd_receive_v2(b@, pos as nat, count as nat) == Err::<
                (Seq<(Seq<u8>, FunctionV2View)>, nat),
                SchemaError,
            >(e),
        }),
    decreases count,
{
    if count == 0 {
        let v: Vec<(Vec<u8>, FunctionV2)> = Vec::new();
        proof {
            assert(entries_view(v@) =~= Seq::<(Seq<u8>, FunctionV2View)>::empty());
        }
        Ok((v, pos))
    } else {
        let (n, p1) = match decode_name(b, pos) {
            Ok(x) => x,
            Err(e) => {
                return Err(e);
            },
        };
        let (f, p2) = match decode_function_v2(b, p1) {
            Ok(x) => x,
            Err(e) => {
                return Err(e);
            },
        };
        let (rest, p3) = match decode_receive_v2(b, p2, count - 1) {
            Ok(x) => x,
            Err(e) => {
                return Err(e);
            },
        };
        match insert_entry(n, f, rest) {
            Ok(out) => Ok((out, p3)),
            Err(_) => Err(SchemaError::MalformedSchema { offset: pos }),
        }
    }
}

/// Decodes a generation-0 contract schema.
pub fn decode_contract_v0(b: &Vec<u8>, pos: usize) -> (r: Result<(ContractV0, usize), SchemaError>)
    ensures
        (match r {
            Ok((c, p)) => sd_contract_v0(b@, pos as nat) == Ok::<(ContractV0View, nat), SchemaError>(
                (c@, p as nat),
            ) && pos < p && p <= b@.len(),
            Err(e) => sd_contract_v0(b@, pos as nat) == Err::<(ContractV0View, nat), SchemaError>(
                e,
            ),
        }),
{
    let (init, p1) = match decode_opt_type(b, pos) {
        Ok(x) => x,
        Err(e) => {
            return Err(e);
        },
    };
    let (state, p2) = match decode_opt_type(b, p1) {
        Ok(x) => x,
        Err(e) => {
            return Err(e);
        },
    };
    let (count, p3) = match read_u32(b, p2) {
        Ok(x) => x,
        Err(e) => {
            return Err(e);
        },
    };
    let (receive, p4) = match decode_receive_v0(b, p3, count) {
        Ok(x) => x,
        Err(e) => {
            return Err(e);
        },
    };
    Ok((ContractV0 { init, state, receive }, p4))
}

/// Decodes a generation-1 contract schema.
pub fn decode_contract_v1(b: &Vec<u8>, pos: usize) -> (r: Result<(ContractV1, usize), SchemaError>)
    ensures
        (match r {
            Ok((c, p)) => sd_contract_v1(b@, pos as nat) == Ok::<(ContractV1View, nat), SchemaError>(
                (c@, p as nat),
            ) && pos < p && p <= b@.len(),
            Err(e) => sd_contract_v1(b@, pos as nat) == Err::<(ContractV1View, nat), SchemaError>(
                e,
            ),
        }),
{
    let (init, p1) = match decode_opt_function_v1(b, pos) {
        Ok(x) => x,
        Err(e) => {
            return Err(e);
        },
    };
    let (count, p2) = match read_u32(b, p1) {
        Ok(x) => x,
        Err(e) => {
            return Err(e);
        },
    };
    let (receive, p3) = match decode_receive_v1(b, p2, count) {
        Ok(x) => x,
        Err(e) => {
            return Err(e);
        },
    };
    Ok((ContractV1 { init, receive }, p3))
}

/// Decodes a generation-2 contract schema.
pub fn decode_contract_v2(b: &Vec<u8>, pos: usize) -> (r: Result<(ContractV2, usize), SchemaError>)
    ensures
        (match r {
            Ok((c, p)) => sd_contract_v2(b@, pos as nat) == Ok::<(ContractV2View, nat), SchemaError>(
                (c@, p as nat),
            ) && pos < p && p <= b@.len(),
            Err(e) => sd_contract_v2(b@, pos as nat) == Err::<(ContractV2View, nat), SchemaError>(
                e,
            ),
        }),
{
    let (init, p1) = match decode_opt_function_v2(b, pos) {
        Ok(x) => x,
        Err(e) => {
            return Err(e);
        },
    };
    let (count, p2) = match read_u32(b, p1) {
        Ok(x) => x,
        Err(e) => {
            return Err(e);
        },
    };
    let (receive, p3) = match decode_receive_v2(b, p2, count) {
        Ok(x) => x,
        Err(e) => {
            return Err(e);
        },
    };
    Ok((ContractV2 { init, receive }, p3))
}

/// Decodes a generation-3 contract schema.
pub fn decode_contract_v3(b: &Vec<u8>, pos: usize) -> (r: Result<(ContractV3, usize), SchemaError>)
    ensures
        (match r {
            Ok((c, p)) => sd_contract_v3(b@, pos as nat) == Ok::<(ContractV3View, nat), SchemaError>(
                (c@, p as nat),
            ) && pos < p && p <= b@.len(),
            Err(e) => sd_contract_v3(b@, pos as nat) == Err::<(ContractV3View, nat), SchemaError>(
                e,
            ),
        }),
{
    let (init, p1) = match decode_opt_function_v2(b, pos) {
        Ok(x) => x,
        Err(e) => {
            return Err(e);
        },
    };
    let (event, p2) = match decode_opt_type(b, p1) {
        Ok(x) => x,
        Err(e) => {
            return Err(e);
        },
    };
    let (count, p3) = match read_u32(b, p2) {
        Ok(x) => x,
        Err(e) => {
            return Err(e);
        },
    };
    let (receive, p4) = match decode_receive_v2(b, p3, count) {
        Ok(x) => x,
        Err(e) => {
            return Err(e);
        },
    };
    Ok((ContractV3 { init, event, receive }, p4))
}

/// Decodes `count` generation-0 contracts into a name-sorted map.
pub fn decode_contracts_v0(b: &Vec<u8>, pos: usize, count: u32) -> (r: Result<
    (Vec<(Vec<u8>, ContractV0)>, usize),
    SchemaError,
>)
    requires
        pos <= b@.len(),
    ensures
        (match r {
            Ok((v, p)) => sd_contracts_v0(b@, pos as nat, count as nat) == Ok::<
                (Seq<(Seq<u8>, ContractV0View)>, nat),
                SchemaError,
            >((entries_view(v@), p as nat)) && pos <= p && p <= b@.len(),
            Err(e) => sd_contracts_v0(b@, pos as nat, count as nat) == Err::<
                (Seq<(Seq<u8>, ContractV0View)>, nat),
                SchemaError,
            >(e),
        }),
    decreases count,
{
    if count == 0 {
        let v: Vec<(Vec<u8>, ContractV0)> = Vec::new();
        proof {
            assert(entries_view(v@) =~= Seq::<(Seq<u8>, ContractV0View)>::empty());
        }
        Ok((v, pos))
    } else {
        let (n, p1) = match decode_name(b, pos) {
            Ok(x) => x,
            Err(e) => {
                return Err(e);
            },
        };
        let (c, p2) = match decode_contract_v0(b, p1) {
            Ok(x) => x,
            Err(e) => {
                return Err(e);
            },
        };
        let (rest, p3) = match decode_contracts_v0(b, p2, count - 1) {
            Ok(x) => x,
            Err(e) => {
                return Err(e);
            },
        };
        match insert_entry(n, c, rest) {
            Ok(out) => Ok((out, p3)),
            Err(_) => Err(SchemaError::MalformedSchema { offset: pos }),
        }
    }
}

/// Decodes `count` generation-1 contracts into a name-sorted map.
pub fn decode_contracts_v1(b: &Vec<u8>, pos: usize, count: u32) -> (r: Result<
    (Vec<(Vec<u8>, ContractV1)>, usize),
    SchemaError,
>)
    requires
        pos <= b@.len(),
    ensures
        (match r {
            Ok((v, p)) => sd_contracts_v1(b@, pos as nat, count as nat) == Ok::<
                (Seq<(Seq<u8>, ContractV1View)>, nat),
                SchemaError,
            >((entries_view(v@), p as nat)) && pos <= p && p <= b@.len(),
            Err(e) => sd_contracts_v1(b@, pos as nat, count as nat) == Err::<
                (Seq<(Seq<u8>, ContractV1View)>, nat),
                SchemaError,
            >(e),
        }),
    decreases count,
{
    if count == 0 {
        let v: Vec<(Vec<u8>, ContractV1)> = Vec::new();
        proof {
            assert(entries_view(v@) =~= Seq::<(Seq<u8>, ContractV1View)>::empty());
        }
        Ok((v, pos))
    } else {
        let (n, p1) = match decode_name(b, pos) {
            Ok(x) => x,
            Err(e) => {
                return Err(e);
            },
        };
        let (c, p2) = match decode_contract_v1(b, p1) {
            Ok(x) => x,
            Err(e) => {
                return Err(e);
            },
        };
        let (rest, p3) = match decode_contracts_v1(b, p2, count - 1) {
            Ok(x) => x,
            Err(e) => {
                return Err(e);
            },
        };
        match insert_entry(n, c, rest) {
            Ok(out) => Ok((out, p3)),
            Err(_) => Err(SchemaError::MalformedSchema { offset: pos }),
        }
    }
}

/// Decodes `count` generation-2 contracts into a name-sorted map.
pub fn decode_contracts_v2(b: &Vec<u8>, pos: usize, count: u32) -> (r: Result<
    (Vec<(Vec<u8>, ContractV2)>, usize),
    SchemaError,
>)
    requires
        pos <= b@.len(),
    ensures
        (match r {
            Ok((v, p)) => sd_contracts_v2(b@, pos as nat, count as nat) == Ok::<
                (Seq<(Seq<u8>, ContractV2View)>, nat),
                SchemaError,
            >((entries_view(v@), p as nat)) && pos <= p && p <= b@.len(),
            Err(e) => sd_contracts_v2(b@, pos as nat, count as nat) == Err::<
                (Seq<(Seq<u8>, ContractV2View)>, nat),
                SchemaError,
            >(e),
        }),
    decreases count,
{
    if count == 0 {
        let v: Vec<(Vec<u8>, ContractV2)> = Vec::new();
        proof {
            assert(entries_view(v@) =~= Seq::<(Seq<u8>, ContractV2View)>::empty());
        }
        Ok((v, pos))
    } else {
        let (n, p1) = match decode_name(b, pos) {
            Ok(x) => x,
            Err(e) => {
                return Err(e);
            },
        };
        let (c, p2) = match decode_contract_v2(b, p1) {
            Ok(x) => x,
            Err(e) => {
                return Err(e);
            },
        };
        let (rest, p3) = match decode_contracts_v2(b, p2, count - 1) {
            Ok(x) => x,
            Err(e) => {
                return Err(e);
            },
        };
        match insert_entry(n, c, rest) {
            Ok(out) => Ok((out, p3)),
            Err(_) => Err(SchemaError::MalformedSchema { offset: pos }),
        }
    }
}

/// Decodes `count` generation-3 contracts into a name-sorted map.
pub fn decode_contracts_v3(b: &Vec<u8>, pos: usize, count: u32) -> (r: Result<
    (Vec<(Vec<u8>, ContractV3)>, usize),
    SchemaError,
>)
    requires
        pos <= b@.len(),
    ensures
        (match r {
            Ok((v, p)) => sd_contracts_v3(b@, pos as nat, count as nat) == Ok::<
                (Seq<(Seq<u8>, ContractV3View)>, nat),
                SchemaError,
            >((entries_view(v@), p as nat)) && pos <= p && p <= b@.len(),
            Err(e) => sd_contracts_v3(b@, pos as nat, count as nat) == Err::<
                (Seq<(Seq<u8>, ContractV3View)>, nat),
                SchemaError,
            >(e),
        }),
    decreases count,
{
    if count == 0 {
        let v: Vec<(Vec<u8>, ContractV3)> = Vec::new();
        proof {
            assert(entries_view(v@) =~= Seq::<(Seq<u8>, ContractV3View)>::empty());
        }
        Ok((v, pos))
    } else {
        let (n, p1) = match decode_name(b, pos) {
            Ok(x) => x,
            Err(e) => {
                return Err(e);
            },
        };
        let (c, p2) = match decode_contract_v3(b, p1) {
            Ok(x) => x,
            Err(e) => {
                return Err(e);
            },
        };
        let (rest, p3) = match decode_contracts_v3(b, p2, count - 1) {
            Ok(x) => x,
            Err(e) => {
                return Err(e);
            },
        };
        match insert_entry(n, c, rest) {
            Ok(out) => Ok((out, p3)),
            Err(_) => Err(SchemaError::MalformedSchema { offset: pos }),
        }
    }
}

/// Decodes a generation-0 module body: contract count, then the contracts.
pub fn decode_module_v0(b: &Vec<u8>, pos: usize) -> (r: Result<
    (Vec<(Vec<u8>, ContractV0)>, usize),
    SchemaError,
>)
    ensures
        (match r {
            Ok((v, p)) => sd_module_v0(b@, pos as nat) == Ok::<
                (Seq<(Seq<u8>, ContractV0View)>, nat),
                SchemaError,
            >((entries_view(v@), p as nat)),
            Err(e) => sd_module_v0(b@, pos as nat) == Err::<
                (Seq<(Seq<u8>, ContractV0View)>, nat),
                SchemaError,
            >(e),
        }),
{
    let (count, p1) = match read_u32(b, pos) {
        Ok(x) => x,
        Err(e) => {
            return Err(e);
        },
    };
    decode_contracts_v0(b, p1, count)
}

/// Decodes a generation-1 module body.
pub fn decode_module_v1(b: &Vec<u8>, pos: usize) -> (r: Result<
    (Vec<(Vec<u8>, ContractV1)>, usize),
    SchemaError,
>)
    ensures
        (match r {
            Ok((v, p)) => sd_module_v1(b@, pos as nat) == Ok::<
                (Seq<(Seq<u8>, ContractV1View)>, nat),
                SchemaError,
            >((entries_view(v@), p as nat)),
            Err(e) => sd_module_v1(b@, pos as nat) == Err::<
                (Seq<(Seq<u8>, ContractV1View)>, nat),
                SchemaError,
            >(e),
        }),
{
    let (count, p1) = match read_u32(b, pos) {
        Ok(x) => x,
        Err(e) => {
            return Err(e);
        },
    };
    decode_contracts_v1(b, p1, count)
}

/// Decodes a generation-2 module body.
pub fn decode_module_v2(b: &Vec<u8>, pos: usize) -> (r: Result<
    (Vec<(Vec<u8>, ContractV2)>, usize),
    SchemaError,
>)
    ensures
        (match r {
            Ok((v, p)) => sd_module_v2(b@, pos as nat) == Ok::<
                (Seq<(Seq<u8>, ContractV2View)>, nat),
                SchemaError,
            >((entries_view(v@), p as nat)),
            Err(e) => sd_module_v2(b@, pos as nat) == Err::<
                (Seq<(Seq<u8>, ContractV2View)>, nat),
                SchemaError,
            >(e),
        }),
{
    let (count, p1) = match read_u32(b, pos) {
        Ok(x) => x,
        Err(e) => {
            return Err(e);
        },
    };
    decode_contracts_v2(b, p1, count)
}

/// Decodes a generation-3 module body.
pub fn decode_module_v3(b: &Vec<u8>, pos: usize) -> (r: Result<
    (Vec<(Vec<u8>, ContractV3)>, usize),
    SchemaError,
>)
    ensures
        (match r {
            Ok((v, p)) => sd_module_v3(b@, pos as nat) == Ok::<
                (Seq<(Seq<u8>, ContractV3View)>, nat),
                SchemaError,
            >((entries_view(v@), p as nat)),
            Err(e) => sd_module_v3(b@, pos as nat) == Err::<
                (Seq<(Seq<u8>, ContractV3View)>, nat),
                SchemaError,
            >(e),
        }),
{
    let (count, p1) = match read_u32(b, pos) {
        Ok(x) => x,
        Err(e) => {
            return Err(e);
        },
    };
    decode_contracts_v3(b, p1, count)
}

/// Decodes a whole module schema. A version-tagged stream (magic prefix
/// `0xFF 0xFF`) carries its own generation tag; a legacy stream is decoded by
/// the caller's generation hint and fails without one. Trailing bytes after a
/// fully decoded module are accepted.
pub fn parse_schema(wasm_version: Option<WasmVersion>, bytes: &[u8]) -> (r: Result<
    VersionedModuleSchema,
    SchemaError,
>)
    ensures
        (match r {
            Ok(m) => spec_parse_schema(wasm_version, bytes@) == Ok::<
                ModuleSchemaView,
                SchemaError,
            >(m@),
            Err(e) => spec_parse_schema(wasm_version, bytes@) == Err::<
                ModuleSchemaView,
                SchemaError,
            >(e),
        }),
        (!has_magic(bytes@) && wasm_version is None ==> r == Err::<
            VersionedModuleSchema,
            SchemaError,
        >(SchemaError::MissingVersionHint)),
        (has_magic(bytes@) && bytes@.len() >= 3 && bytes@[2] > 3 ==> r == Err::<
            VersionedModuleSchema,
            SchemaError,
        >(SchemaError::MalformedSchema { offset: 2 })),
{
    let b: Vec<u8> = vstd::slice::slice_to_vec(bytes);
    if b.len() >= 2 && b[0] == 0xffu8 && b[1] == 0xffu8 {
        let (g, p1) = match read_u8(&b, 2) {
            Ok(x) => x,
            Err(e) => {
                return Err(e);
            },
        };
        match g {
            0u8 => match decode_module_v0(&b, p1) {
                Ok((cs, _p)) => Ok(VersionedModuleSchema::V0(cs)),
                Err(e) => Err(e),
            },
            1u8 => match decode_module_v1(&b, p1) {
                Ok((cs, _p)) => Ok(VersionedModuleSchema::V1(cs)),
                Err(e) => Err(e),
            },
            2u8 => match decode_module_v2(&b, p1) {
                Ok((cs, _p)) => Ok(VersionedModuleSchema::V2(cs)),
                Err(e) => Err(e),
            },
            3u8 => match decode_module_v3(&b, p1) {
                Ok((cs, _p)) => Ok(VersionedModuleSchema::V3(cs)),
                Err(e) => Err(e),
            },
            _ => Err(SchemaError::MalformedSchema { offset: 2 }),
        }
    } else {
        match wasm_version {
            Option::None => Err(SchemaError::MissingVersionHint),
            Option::Some(WasmVersion::V0) => match decode_module_v0(&b, 0) {
                Ok((cs, _p)) => Ok(VersionedModuleSchema::V0(cs)),
                Err(e) => Err(e),
            },
            Option::Some(WasmVersion::V1) => match decode_module_v1(&b, 0) {
                Ok((cs, _p)) => Ok(VersionedModuleSchema::V1(cs)),
                Err(e) => Err(e),
            },
        }
    }
}

} // verus!
