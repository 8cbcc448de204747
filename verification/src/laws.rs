//! Laws of the decoder and the projection, stated over the mathematical
//! views.
use vstd::prelude::*;

use crate::decode::spec_insert;
use crate::decode::spec_insert_tagged;
use crate::decode::sd_contracts_v0;
use crate::decode::sd_contracts_v1;
use crate::decode::sd_contracts_v2;
use crate::decode::sd_contracts_v3;
use crate::decode::sd_receive_v0;
use crate::decode::sd_receive_v1;
use crate::decode::sd_receive_v2;
use crate::decode::sd_tagged_variants;
use crate::decode::spec_parse_schema;
use crate::json::JsonView;
use crate::json::kw_kind;
use crate::json::sp_kind;
use crate::json::sp_type;
use crate::types::FieldsView;
use crate::types::SchemaError;
use crate::types::ContractV1View;
use crate::types::ContractV2View;
use crate::types::ContractV3View;
use crate::types::ContractV0View;
use crate::types::FunctionV1View;
use crate::types::FunctionV2View;
use crate::types::ModuleSchemaView;
use crate::types::TypeView;
use crate::types::WasmVersion;
use crate::types::lex_less;

verus! {

/// A name-keyed entry list whose keys strictly ascend.
pub open spec fn sorted_by_name<V>(s: Seq<(Seq<u8>, V)>) -> bool {
    forall|i: int| 0 <= i < s.len() - 1 ==> lex_less(s[i].0, #[trigger] s[i + 1].0)
}

/// A tagged-variant list whose tags strictly ascend.
pub open spec fn sorted_by_tag(s: Seq<(u8, Seq<u8>, FieldsView)>) -> bool {
    forall|i: int| 0 <= i < s.len() - 1 ==> s[i].0 < (#[trigger] s[i + 1]).0
}

/// The lexicographic order on byte strings is total: of two byte strings,
/// either one comes strictly first or they are equal.
pub proof fn lemma_lex_trichotomy(a: Seq<u8>, b: Seq<u8>)
    ensures
        lex_less(a, b) || a == b || lex_less(b, a),
    decreases a.len(),
{
    if b.len() == 0 {
        if a.len() == 0 {
            assert(a =~= b);
        }
    } else if a.len() == 0 {
    } else if a[0] == b[0] {
        lemma_lex_trichotomy(a.drop_first(), b.drop_first());
        if a.drop_first() == b.drop_first() {
            assert(a =~= seq![a[0]] + a.drop_first());
            assert(b =~= seq![b[0]] + b.drop_first());
        }
    }
}

/// Sorted insertion keeps a name-keyed list sorted; the inserted list is one
/// entry longer, and its head is the new entry or the old head.
pub proof fn lemma_spec_insert_sorted<V>(k: Seq<u8>, v: V, s: Seq<(Seq<u8>, V)>)
    requires
        sorted_by_name(s),
    ensures
        (match spec_insert(k, v, s) {
            Option::Some(out) => sorted_by_name(out) && out.len() == s.len() + 1 && (out[0] == (
                k,
                v,
            ) || (s.len() > 0 && out[0] == s[0])),
            Option::None => true,
        }),
    decreases s.len(),
{
    if s.len() == 0 {
    } else if lex_less(k, s[0].0) {
        let out = seq![(k, v)] + s;
        assert forall|i: int| 0 <= i < out.len() - 1 implies lex_less(
            out[i].0,
            #[trigger] out[i + 1].0,
        ) by {
            assert(out[0] == (k, v));
            assert(out[i + 1] == s[i]);
            if i > 0 {
                assert(out[i] == s[i - 1]);
                assert(lex_less(s[i - 1].0, s[(i - 1) + 1].0));
            }
        }
    } else if k == s[0].0 {
    } else {
        let tail = s.drop_first();
        assert forall|i: int| 0 <= i < tail.len() - 1 implies lex_less(
            tail[i].0,
            #[trigger] tail[i + 1].0,
        ) by {
            assert(tail[i] == s[i + 1]);
            assert(tail[i + 1] == s[i + 2]);
            assert(lex_less(s[i + 1].0, s[(i + 1) + 1].0));
        }
        lemma_spec_insert_sorted(k, v, tail);
        match spec_insert(k, v, tail) {
            Option::None => {},
            Option::Some(r) => {
                lemma_lex_trichotomy(k, s[0].0);
                let out = seq![s[0]] + r;
                assert forall|i: int| 0 <= i < out.len() - 1 implies lex_less(
                    out[i].0,
                    #[trigger] out[i + 1].0,
                ) by {
                    if i == 0 {
                        assert(out[1] == r[0]);
                        if r[0] == (k, v) {
                            assert(lex_less(s[0].0, k));
                        } else {
                            assert(tail[0] == s[1]);
                            assert(lex_less(s[0].0, s[1].0));
                        }
                    } else {
                        assert(out[i] == r[i - 1]);
                        assert(out[i + 1] == r[i]);
                        assert(lex_less(r[i - 1].0, r[(i - 1) + 1].0));
                    }
                }
            },
        }
    }
}

/// Sorted insertion keeps a tagged-variant list sorted; the inserted list is
/// one entry longer, and its head is the new variant or the old head.
pub proof fn lemma_spec_insert_tagged_sorted(
    tag: u8,
    name: Seq<u8>,
    f: FieldsView,
    s: Seq<(u8, Seq<u8>, FieldsView)>,
)
    requires
        sorted_by_tag(s),
    ensures
        (match spec_insert_tagged(tag, name, f, s) {
            Option::Some(out) => sorted_by_tag(out) && out.len() == s.len() + 1 && (out[0] == (
                tag,
                name,
                f,
            ) || (s.len() > 0 && out[0] == s[0])),
            Option::None => true,
        }),
    decreases s.len(),
{
    if s.len() == 0 {
    } else if tag < s[0].0 {
        let out = seq![(tag, name, f)] + s;
        assert forall|i: int| 0 <= i < out.len() - 1 implies out[i].0 < (#[trigger] out[i
            + 1]).0 by {
            assert(out[0] == (tag, name, f));
            assert(out[i + 1] == s[i]);
            if i > 0 {
                assert(out[i] == s[i - 1]);
                assert(s[i - 1].0 < s[(i - 1) + 1].0);
            }
        }
    } else if tag == s[0].0 {
    } else {
        let tail = s.drop_first();
        assert forall|i: int| 0 <= i < tail.len() - 1 implies tail[i].0 < (#[trigger] tail[i
            + 1]).0 by {
            assert(tail[i] == s[i + 1]);
            assert(tail[i + 1] == s[i + 2]);
            assert(s[i + 1].0 < s[(i + 1) + 1].0);
        }
        lemma_spec_insert_tagged_sorted(tag, name, f, tail);
        match spec_insert_tagged(tag, name, f, tail) {
            Option::None => {},
            Option::Some(r) => {
                let out = seq![s[0]] + r;
                assert forall|i: int| 0 <= i < out.len() - 1 implies out[i].0 < (#[trigger] out[i
                    + 1]).0 by {
                    if i == 0 {
                        assert(out[1] == r[0]);
                        if r[0] == (tag, name, f) {
                        } else {
                            assert(tail[0] == s[1]);
                            assert(s[0].0 < s[1].0);
                        }
                    } else {
                        assert(out[i] == r[i - 1]);
                        assert(out[i + 1] == r[i]);
                        assert(r[i - 1].0 < r[(i - 1) + 1].0);
                    }
                }
            },
        }
    }
}

/// A decoded tagged-enum variant list is strictly sorted by tag: the variant
/// tag, not the declaration order in the byte stream, determines where a
/// variant stands.
pub proof fn lemma_tagged_variants_sorted(b: Seq<u8>, pos: nat, count: nat)
    ensures
        (match sd_tagged_variants(b, pos, count) {
            Ok((vs, p)) => sorted_by_tag(vs),
            Err(_) => true,
        }),
    decreases count,
{
    if count > 0 {
        match crate::decode::sd_u8(b, pos) {
            Err(_) => {},
            Ok((tag, p1)) => {
                if pos < p1 && p1 <= b.len() {
                    match crate::decode::sd_name(b, p1) {
                        Err(_) => {},
                        Ok((n, p2)) => {
                            if pos < p2 && p2 <= b.len() {
                                match crate::decode::sd_fields(b, p2) {
                                    Err(_) => {},
                                    Ok((f, p3)) => {
                                        if pos < p3 && p3 <= b.len() {
                                            lemma_tagged_variants_sorted(
                                                b,
                                                p3,
                                                (count - 1) as nat,
                                            );
                                            match sd_tagged_variants(b, p3, (count - 1) as nat) {
                                                Err(_) => {},
                                                Ok((rest, _)) => {
                                                    lemma_spec_insert_tagged_sorted(
                                                        tag,
                                                        n,
                                                        f,
                                                        rest,
                                                    );
                                                },
                                            }
                                        }
                                    },
                                }
                            }
                        },
                    }
                }
            },
        }
    }
}

/// The projection is total over the type grammar: every type descriptor,
/// whatever its variant, projects to a JSON object whose first member is
/// `kind`, holding exactly that variant's discriminant string.
pub proof fn lemma_type_projection_total(t: TypeView)
    ensures
        (match sp_type(t) {
            JsonView::Obj(ms) => ms.len() >= 1 && ms[0] == (
                kw_kind(),
                JsonView::Str(sp_kind(t)),
            ),
            _ => false,
        }),
{
}

/// A decoded generation-0 receive map is strictly sorted by entrypoint name.
pub proof fn lemma_receive_v0_sorted(b: Seq<u8>, pos: nat, count: nat)
    ensures
        (match sd_receive_v0(b, pos, count) {
            Ok((s, p)) => sorted_by_name(s),
            Err(_) => true,
        }),
    decreases count,
{
    if count > 0 {
        match crate::decode::sd_name(b, pos) {
            Err(_) => {},
            Ok((n, p1)) => match crate::decode::sd_type(b, p1) {
                Err(_) => {},
                Ok((t, p2)) => {
                    lemma_receive_v0_sorted(b, p2, (count - 1) as nat);
                    match sd_receive_v0(b, p2, (count - 1) as nat) {
                        Err(_) => {},
                        Ok((rest, _)) => {
                            lemma_spec_insert_sorted(n, t, rest);
                        },
                    }
                },
            },
        }
    }
}

/// A decoded generation-1 receive map is strictly sorted by entrypoint name.
pub proof fn lemma_receive_v1_sorted(b: Seq<u8>, pos: nat, count: nat)
    ensures
        (match sd_receive_v1(b, pos, count) {
            Ok((s, p)) => sorted_by_name(s),
            Err(_) => true,
        }),
    decreases count,
{
    if count > 0 {
        match crate::decode::sd_name(b, pos) {
            Err(_) => {},
            Ok((n, p1)) => match crate::decode::sd_function_v1(b, p1) {
                Err(_) => {},
                Ok((f, p2)) => {
                    lemma_receive_v1_sorted(b, p2, (count - 1) as nat);
                    match sd_receive_v1(b, p2, (count - 1) as nat) {
                        Err(_) => {},
                        Ok((rest, _)) => {
                            lemma_spec_insert_sorted(n, f, rest);
                        },
                    }
                },
            },
        }
    }
}

/// A decoded generation-2 or generation-3 receive map is strictly sorted by
/// entrypoint name.
pub proof fn lemma_receive_v2_sorted(b: Seq<u8>, pos: nat, count: nat)
    ensures
        (match sd_receive_v2(b, pos, count) {
            Ok((s, p)) => sorted_by_name(s),
            Err(_) => true,
        }),
    decreases count,
{
    if count > 0 {
        match crate::decode::sd_name(b, pos) {
            Err(_) => {},
            Ok((n, p1)) => match crate::decode::sd_function_v2(b, p1) {
                Err(_) => {},
                Ok((f, p2)) => {
                    lemma_receive_v2_sorted(b, p2, (count - 1) as nat);
                    match sd_receive_v2(b, p2, (count - 1) as nat) {
                        Err(_) => {},
                        Ok((rest, _)) => {
                            lemma_spec_insert_sorted(n, f, rest);
                        },
                    }
                },
            },
        }
    }
}

/// A decoded generation-0 contract map is strictly sorted by contract name.
pub proof fn lemma_contracts_v0_sorted(b: Seq<u8>, pos: nat, count: nat)
    ensures
        (match sd_contracts_v0(b, pos, count) {
            Ok((s, p)) => sorted_by_name(s),
            Err(_) => true,
        }),
    decreases count,
{
    if count > 0 {
        match crate::decode::sd_name(b, pos) {
            Err(_) => {},
            Ok((n, p1)) => match crate::decode::sd_contract_v0(b, p1) {
                Err(_) => {},
                Ok((c, p2)) => {
                    lemma_contracts_v0_sorted(b, p2, (count - 1) as nat);
                    match sd_contracts_v0(b, p2, (count - 1) as nat) {
                        Err(_) => {},
                        Ok((rest, _)) => {
                            lemma_spec_insert_sorted(n, c, rest);
                        },
                    }
                },
            },
        }
    }
}

/// A decoded generation-1 contract map is strictly sorted by contract name.
pub proof fn lemma_contracts_v1_sorted(b: Seq<u8>, pos: nat, count: nat)
    ensures
        (match sd_contracts_v1(b, pos, count) {
            Ok((s, p)) => sorted_by_name(s),
            Err(_) => true,
        }),
    decreases count,
{
    if count > 0 {
        match crate::decode::sd_name(b, pos) {
            Err(_) => {},
            Ok((n, p1)) => match crate::decode::sd_contract_v1(b, p1) {
                Err(_) => {},
                Ok((c, p2)) => {
                    lemma_contracts_v1_sorted(b, p2, (count - 1) as nat);
                    match sd_contracts_v1(b, p2, (count - 1) as nat) {
                        Err(_) => {},
                        Ok((rest, _)) => {
                            lemma_spec_insert_sorted(n, c, rest);
                        },
                    }
                },
            },
        }
    }
}

/// A decoded generation-2 contract map is strictly sorted by contract name.
pub proof fn lemma_contracts_v2_sorted(b: Seq<u8>, pos: nat, count: nat)
    ensures
        (match sd_contracts_v2(b, pos, count) {
            Ok((s, p)) => sorted_by_name(s),
            Err(_) => true,
        }),
    decreases count,
{
    if count > 0 {
        match crate::decode::sd_name(b, pos) {
            Err(_) => {},
            Ok((n, p1)) => match crate::decode::sd_contract_v2(b, p1) {
                Err(_) => {},
                Ok((c, p2)) => {
                    lemma_contracts_v2_sorted(b, p2, (count - 1) as nat);
                    match sd_contracts_v2(b, p2, (count - 1) as nat) {
                        Err(_) => {},
                        Ok((rest, _)) => {
                            lemma_spec_insert_sorted(n, c, rest);
                        },
                    }
                },
            },
        }
    }
}

/// A decoded generation-3 contract map is strictly sorted by contract name.
pub proof fn lemma_contracts_v3_sorted(b: Seq<u8>, pos: nat, count: nat)
    ensures
        (match sd_contracts_v3(b, pos, count) {
            Ok((s, p)) => sorted_by_name(s),
            Err(_) => true,
        }),
    decreases count,
{
    if count > 0 {
        match crate::decode::sd_name(b, pos) {
            Err(_) => {},
            Ok((n, p1)) => match crate::decode::sd_contract_v3(b, p1) {
                Err(_) => {},
                Ok((c, p2)) => {
                    lemma_contracts_v3_sorted(b, p2, (count - 1) as nat);
                    match sd_contracts_v3(b, p2, (count - 1) as nat) {
                        Err(_) => {},
                        Ok((rest, _)) => {
                            lemma_spec_insert_sorted(n, c, rest);
                        },
                    }
                },
            },
        }
    }
}

/// Every successfully decoded module holds its contracts strictly sorted by
/// name, whatever order the wire supplied them in: the JSON projection walks
/// the entries in place, so its output follows lexicographic key order.
pub proof fn lemma_parse_schema_sorted(hint: Option<WasmVersion>, b: Seq<u8>)
    ensures
        (match spec_parse_schema(hint, b) {
            Ok(m) => match m {
                ModuleSchemaView::V0(cs) => sorted_by_name(cs),
                ModuleSchemaView::V1(cs) => sorted_by_name(cs),
                ModuleSchemaView::V2(cs) => sorted_by_name(cs),
                ModuleSchemaView::V3(cs) => sorted_by_name(cs),
            },
            Err(_) => true,
        }),
{
    if crate::decode::has_magic(b) {
        match crate::decode::sd_u8(b, 2) {
            Err(_) => {},
            Ok((g, p1)) => match crate::decode::sd_u32(b, p1) {
                Err(_) => {},
                Ok((count, p2)) => {
                    lemma_contracts_v0_sorted(b, p2, count);
                    lemma_contracts_v1_sorted(b, p2, count);
                    lemma_contracts_v2_sorted(b, p2, count);
                    lemma_contracts_v3_sorted(b, p2, count);
                },
            },
        }
    } else {
        match crate::decode::sd_u32(b, 0) {
            Err(_) => {},
            Ok((count, p1)) => {
                lemma_contracts_v0_sorted(b, p1, count);
                lemma_contracts_v1_sorted(b, p1, count);
            },
        }
    }
}

/// Whether a decode result is a failure of the `UnexpectedEndOfInput` kind.
pub open spec fn ends_early<T>(r: Result<(T, nat), SchemaError>) -> bool {
    match r {
        Err(e) => e is UnexpectedEndOfInput,
        _ => false,
    }
}

/// Truncating below the end of a decoded byte ends the decode early;
/// truncating at or past it changes nothing.
proof fn lemma_u8_take(b: Seq<u8>, pos: nat, k: nat)
    requires
        k <= b.len(),
    ensures
        (match crate::decode::sd_u8(b, pos) {
            Ok((v, p)) => pos < p && p <= b.len() && (if p <= k {
                crate::decode::sd_u8(b.take(k as int), pos) == Ok::<(u8, nat), SchemaError>((v, p))
            } else {
                ends_early(crate::decode::sd_u8(b.take(k as int), pos))
            }),
            Err(_) => true,
        }),
{
    if pos + 1 <= b.len() && pos + 1 <= k {
        assert(b.take(k as int)[pos as int] == b[pos as int]);
    }
}

/// Truncating below the end of a decoded four-byte integer ends the decode
/// early; truncating at or past it changes nothing.
proof fn lemma_u32_take(b: Seq<u8>, pos: nat, k: nat)
    requires
        k <= b.len(),
    ensures
        (match crate::decode::sd_u32(b, pos) {
            Ok((v, p)) => pos < p && p <= b.len() && (if p <= k {
                crate::decode::sd_u32(b.take(k as int), pos) == Ok::<(nat, nat), SchemaError>(
                    (v, p),
                )
            } else {
                ends_early(crate::decode::sd_u32(b.take(k as int), pos))
            }),
            Err(_) => true,
        }),
{
    if pos + 4 <= b.len() && pos + 4 <= k {
        assert(b.take(k as int)[pos as int] == b[pos as int]);
        assert(b.take(k as int)[pos as int + 1] == b[pos as int + 1]);
        assert(b.take(k as int)[pos as int + 2] == b[pos as int + 2]);
        assert(b.take(k as int)[pos as int + 3] == b[pos as int + 3]);
    }
}

/// Truncating below the end of a decoded name ends the decode early;
/// truncating at or past it changes nothing.
proof fn lemma_name_take(b: Seq<u8>, pos: nat, k: nat)
    requires
        k <= b.len(),
    ensures
        (match crate::decode::sd_name(b, pos) {
            Ok((n, p)) => pos < p && p <= b.len() && (if p <= k {
                crate::decode::sd_name(b.take(k as int), pos) == Ok::<(Seq<u8>, nat), SchemaError>(
                    (n, p),
                )
            } else {
                ends_early(crate::decode::sd_name(b.take(k as int), pos))
            }),
            Err(_) => true,
        }),
{
    lemma_u32_take(b, pos, k);
    match crate::decode::sd_u32(b, pos) {
        Err(_) => {},
        Ok((len, p1)) => {
            if p1 + len <= b.len() && p1 + len <= k {
                assert(b.take(k as int).subrange(p1 as int, (p1 + len) as int) =~= b.subrange(
                    p1 as int,
                    (p1 + len) as int,
                ));
            }
        },
    }
}

/// Truncating below the end of a decoded length-size class ends the decode
/// early; truncating at or past it changes nothing.
proof fn lemma_size_length_take(b: Seq<u8>, pos: nat, k: nat)
    requires
        k <= b.len(),
    ensures
        (match crate::decode::sd_size_length(b, pos) {
            Ok((sl, p)) => pos < p && p <= b.len() && (if p <= k {
                crate::decode::sd_size_length(b.take(k as int), pos) == Ok::<
                    (crate::types::SizeLength, nat),
                    SchemaError,
                >((sl, p))
            } else {
                ends_early(crate::decode::sd_size_length(b.take(k as int), pos))
            }),
            Err(_) => true,
        }),
{
    lemma_u8_take(b, pos, k);
}

/// Truncating a well-formed encoded type descriptor anywhere below its end
/// makes the decoder report an early end of input; truncating at or past its
/// end leaves the decoded value and position unchanged.
pub proof fn lemma_type_take(b: Seq<u8>, pos: nat, k: nat)
    requires
        k <= b.len(),
    ensures
        (match crate::decode::sd_type(b, pos) {
            Ok((t, p)) => pos < p && p <= b.len() && (if p <= k {
                crate::decode::sd_type(b.take(k as int), pos) == Ok::<
                    (TypeView, nat),
                    SchemaError,
                >((t, p))
            } else {
                ends_early(crate::decode::sd_type(b.take(k as int), pos))
            }),
            Err(_) => true,
        }),
    decreases b.len() - pos, 0int,
{
    match crate::decode::sd_u8(b, pos) {
        Err(_) => {},
        Ok((tag, p1)) => {
            lemma_u8_take(b, pos, k);
            if pos < p1 && p1 <= b.len() {
                if tag == 15 {
                    lemma_type_take(b, p1, k);
                    match crate::decode::sd_type(b, p1) {
                        Err(_) => {},
                        Ok((a, p2)) => {
                            if p1 < p2 && p2 <= b.len() {
                                lemma_type_take(b, p2, k);
                            }
                        },
                    }
                } else if tag == 16 || tag == 17 {
                    lemma_size_length_take(b, p1, k);
                    match crate::decode::sd_size_length(b, p1) {
                        Err(_) => {},
                        Ok((sl, p2)) => {
                            if p1 < p2 && p2 <= b.len() {
                                lemma_type_take(b, p2, k);
                            }
                        },
                    }
                } else if tag == 18 {
                    lemma_size_length_take(b, p1, k);
                    match crate::decode::sd_size_length(b, p1) {
                        Err(_) => {},
                        Ok((sl, p2)) => {
                            if p1 < p2 && p2 <= b.len() {
                                lemma_type_take(b, p2, k);
                                match crate::decode::sd_type(b, p2) {
                                    Err(_) => {},
                                    Ok((kt, p3)) => {
                                        if p2 < p3 && p3 <= b.len() {
                                            lemma_type_take(b, p3, k);
                                        }
                                    },
                                }
                            }
                        },
                    }
                } else if tag == 19 {
                    lemma_u32_take(b, p1, k);
                    match crate::decode::sd_u32(b, p1) {
                        Err(_) => {},
                        Ok((n, p2)) => {
                            if p1 < p2 && p2 <= b.len() {
                                lemma_type_take(b, p2, k);
                            }
                        },
                    }
                } else if tag == 20 {
                    lemma_fields_take(b, p1, k);
                } else if tag == 21 {
                    lemma_u32_take(b, p1, k);
                    match crate::decode::sd_u32(b, p1) {
                        Err(_) => {},
                        Ok((count, p2)) => {
                            if p1 < p2 && p2 <= b.len() {
                                lemma_enum_variants_take(b, p2, count, k);
                            }
                        },
                    }
                } else if tag == 22 || tag == 25 || tag == 26 || tag == 29 {
                    lemma_size_length_take(b, p1, k);
                } else if tag == 27 || tag == 28 {
                    lemma_u8_take(b, p1, k);
                } else if tag == 30 {
                    lemma_u32_take(b, p1, k);
                } else if tag == 31 {
                    lemma_u32_take(b, p1, k);
                    match crate::decode::sd_u32(b, p1) {
                        Err(_) => {},
                        Ok((count, p2)) => {
                            if p1 < p2 && p2 <= b.len() {
                                lemma_tagged_variants_take(b, p2, count, k);
                            }
                        },
                    }
                }
            }
        },
    }
}

/// The truncation law for a field-shape descriptor.
pub proof fn lemma_fields_take(b: Seq<u8>, pos: nat, k: nat)
    requires
        k <= b.len(),
    ensures
        (match crate::decode::sd_fields(b, pos) {
            Ok((f, p)) => pos < p && p <= b.len() && (if p <= k {
                crate::decode::sd_fields(b.take(k as int), pos) == Ok::<
                    (FieldsView, nat),
                    SchemaError,
                >((f, p))
            } else {
                ends_early(crate::decode::sd_fields(b.take(k as int), pos))
            }),
            Err(_) => true,
        }),
    decreases b.len() - pos, 0int,
{
    match crate::decode::sd_u8(b, pos) {
        Err(_) => {},
        Ok((d, p1)) => {
            lemma_u8_take(b, pos, k);
            if pos < p1 && p1 <= b.len() {
                if d == 0 {
                    lemma_u32_take(b, p1, k);
                    match crate::decode::sd_u32(b, p1) {
                        Err(_) => {},
                        Ok((count, p2)) => {
                            if pos < p2 && p2 <= b.len() {
                                lemma_named_fields_take(b, p2, count, k);
                            }
                        },
                    }
                } else if d == 1 {
                    lemma_u32_take(b, p1, k);
                    match crate::decode::sd_u32(b, p1) {
                        Err(_) => {},
                        Ok((count, p2)) => {
                            if pos < p2 && p2 <= b.len() {
                                lemma_unnamed_fields_take(b, p2, count, k);
                            }
                        },
                    }
                }
            }
        },
    }
}

/// The truncation law for a named-field list.
pub proof fn lemma_named_fields_take(b: Seq<u8>, pos: nat, count: nat, k: nat)
    requires
        k <= b.len(),
        pos <= b.len(),
    ensures
        (match crate::decode::sd_named_fields(b, pos, count) {
            Ok((fs, p)) => pos <= p && p <= b.len() && (pos <= k ==> (if p <= k {
                crate::decode::sd_named_fields(b.take(k as int), pos, count) == Ok::<
                    (Seq<(Seq<u8>, TypeView)>, nat),
                    SchemaError,
                >((fs, p))
            } else {
                ends_early(crate::decode::sd_named_fields(b.take(k as int), pos, count))
            })),
            Err(_) => true,
        }),
    decreases b.len() - pos, 1int,
{
    if count > 0 {
        match crate::decode::sd_name(b, pos) {
            Err(_) => {},
            Ok((n, p1)) => {
                lemma_name_take(b, pos, k);
                if pos < p1 && p1 <= b.len() {
                    lemma_type_take(b, p1, k);
                    match crate::decode::sd_type(b, p1) {
                        Err(_) => {},
                        Ok((t, p2)) => {
                            if pos < p2 && p2 <= b.len() {
                                lemma_named_fields_take(b, p2, (count - 1) as nat, k);
                            }
                        },
                    }
                }
            },
        }
    }
}

/// The truncation law for a positional-field list.
pub proof fn lemma_unnamed_fields_take(b: Seq<u8>, pos: nat, count: nat, k: nat)
    requires
        k <= b.len(),
        pos <= b.len(),
    ensures
        (match crate::decode::sd_unnamed_fields(b, pos, count) {
            Ok((ts, p)) => pos <= p && p <= b.len() && (pos <= k ==> (if p <= k {
                crate::decode::sd_unnamed_fields(b.take(k as int), pos, count) == Ok::<
                    (Seq<TypeView>, nat),
                    SchemaError,
                >((ts, p))
            } else {
                ends_early(
                    crate::decode::sd_unnamed_fields(b.take(k as int), pos, count),
                )
            })),
            Err(_) => true,
        }),
    decreases b.len() - pos, 2int,
{
    if count > 0 {
        match crate::decode::sd_type(b, pos) {
            Err(_) => {},
            Ok((t, p1)) => {
                lemma_type_take(b, pos, k);
                if pos < p1 && p1 <= b.len() {
                    lemma_unnamed_fields_take(b, p1, (count - 1) as nat, k);
                }
            },
        }
    }
}

/// The truncation law for an enum-variant list.
pub proof fn lemma_enum_variants_take(b: Seq<u8>, pos: nat, count: nat, k: nat)
    requires
        k <= b.len(),
        pos <= b.len(),
    ensures
        (match crate::decode::sd_enum_variants(b, pos, count) {
            Ok((vs, p)) => pos <= p && p <= b.len() && (pos <= k ==> (if p <= k {
                crate::decode::sd_enum_variants(b.take(k as int), pos, count) == Ok::<
                    (Seq<(Seq<u8>, FieldsView)>, nat),
                    SchemaError,
                >((vs, p))
            } else {
                ends_early(
                    crate::decode::sd_enum_variants(b.take(k as int), pos, count),
                )
            })),
            Err(_) => true,
        }),
    decreases b.len() - pos, 1int,
{
    if count > 0 {
        match crate::decode::sd_name(b, pos) {
            Err(_) => {},
            Ok((n, p1)) => {
                lemma_name_take(b, pos, k);
                if pos < p1 && p1 <= b.len() {
                    lemma_fields_take(b, p1, k);
                    match crate::decode::sd_fields(b, p1) {
                        Err(_) => {},
                        Ok((f, p2)) => {
                            if pos < p2 && p2 <= b.len() {
                                lemma_enum_variants_take(b, p2, (count - 1) as nat, k);
                            }
                        },
                    }
                }
            },
        }
    }
}

/// The truncation law for a tagged-enum variant list.
pub proof fn lemma_tagged_variants_take(b: Seq<u8>, pos: nat, count: nat, k: nat)
    requires
        k <= b.len(),
        pos <= b.len(),
    ensures
        (match sd_tagged_variants(b, pos, count) {
            Ok((vs, p)) => pos <= p && p <= b.len() && (pos <= k ==> (if p <= k {
                sd_tagged_variants(b.take(k as int), pos, count) == Ok::<
                    (Seq<(u8, Seq<u8>, FieldsView)>, nat),
                    SchemaError,
                >((vs, p))
            } else {
                ends_early(sd_tagged_variants(b.take(k as int), pos, count))
            })),
            Err(_) => true,
        }),
    decreases b.len() - pos, 1int,
{
    if count > 0 {
        match crate::decode::sd_u8(b, pos) {
            Err(_) => {},
            Ok((tag, p1)) => {
                lemma_u8_take(b, pos, k);
                if pos < p1 && p1 <= b.len() {
                    lemma_name_take(b, p1, k);
                    match crate::decode::sd_name(b, p1) {
                        Err(_) => {},
                        Ok((n, p2)) => {
                            if pos < p2 && p2 <= b.len() {
                                lemma_fields_take(b, p2, k);
                                match crate::decode::sd_fields(b, p2) {
                                    Err(_) => {},
                                    Ok((f, p3)) => {
                                        if pos < p3 && p3 <= b.len() {
                                            lemma_tagged_variants_take(
                                                b,
                                                p3,
                                                (count - 1) as nat,
                                                k,
                                            );
                                        }
                                    },
                                }
                            }
                        },
                    }
                }
            },
        }
    }
}

/// The truncation law for a presence flag.
pub proof fn lemma_presence_take(b: Seq<u8>, pos: nat, k: nat)
    requires
        k <= b.len(),
    ensures
        (match crate::decode::sd_presence(b, pos) {
            Ok((x, p)) => pos < p && p <= b.len() && (if p <= k {
                crate::decode::sd_presence(b.take(k as int), pos) == Ok::<
                    (bool, nat),
                    SchemaError,
                >((x, p))
            } else {
                ends_early(crate::decode::sd_presence(b.take(k as int), pos))
            }),
            Err(_) => true,
        }),
{
    lemma_u8_take(b, pos, k);
}

/// The truncation law for an optional type field.
pub proof fn lemma_opt_type_take(b: Seq<u8>, pos: nat, k: nat)
    requires
        k <= b.len(),
    ensures
        (match crate::decode::sd_opt_type(b, pos) {
            Ok((x, p)) => pos < p && p <= b.len() && (if p <= k {
                crate::decode::sd_opt_type(b.take(k as int), pos) == Ok::<
                    (Option<TypeView>, nat),
                    SchemaError,
                >((x, p))
            } else {
                ends_early(crate::decode::sd_opt_type(b.take(k as int), pos))
            }),
            Err(_) => true,
        }),
{
    lemma_presence_take(b, pos, k);
    match crate::decode::sd_presence(b, pos) {
        Err(_) => {},
        Ok((present, p1)) => {
            if present {
                lemma_type_take(b, p1, k);
            }
        },
    }
}

/// The truncation law for a first-generation function schema.
pub proof fn lemma_function_v1_take(b: Seq<u8>, pos: nat, k: nat)
    requires
        k <= b.len(),
    ensures
        (match crate::decode::sd_function_v1(b, pos) {
            Ok((x, p)) => pos < p && p <= b.len() && (if p <= k {
                crate::decode::sd_function_v1(b.take(k as int), pos) == Ok::<
                    (crate::types::FunctionV1View, nat),
                    SchemaError,
                >((x, p))
            } else {
                ends_early(crate::decode::sd_function_v1(b.take(k as int), pos))
            }),
            Err(_) => true,
        }),
{
    lemma_opt_type_take(b, pos, k);
    match crate::decode::sd_opt_type(b, pos) {
        Err(_) => {},
        Ok((x1, p1)) => {
            lemma_opt_type_take(b, p1, k);
        },
    }
}

/// The truncation law for a later-generation function schema.
pub proof fn lemma_function_v2_take(b: Seq<u8>, pos: nat, k: nat)
    requires
        k <= b.len(),
    ensures
        (match crate::decode::sd_function_v2(b, pos) {
            Ok((x, p)) => pos < p && p <= b.len() && (if p <= k {
                crate::decode::sd_function_v2(b.take(k as int), pos) == Ok::<
                    (crate::types::FunctionV2View, nat),
                    SchemaError,
                >((x, p))
            } else {
                ends_early(crate::decode::sd_function_v2(b.take(k as int), pos))
            }),
            Err(_) => true,
        }),
{
    lemma_opt_type_take(b, pos, k);
    match crate::decode::sd_opt_type(b, pos) {
        Err(_) => {},
        Ok((x1, p1)) => {
            lemma_opt_type_take(b, p1, k);
            match crate::decode::sd_opt_type(b, p1) {
                Err(_) => {},
                Ok((x2, p2)) => {
                    lemma_opt_type_take(b, p2, k);
                },
            }
        },
    }
}

/// The truncation law for an optional function schema.
pub proof fn lemma_opt_function_v1_take(b: Seq<u8>, pos: nat, k: nat)
    requires
        k <= b.len(),
    ensures
        (match crate::decode::sd_opt_function_v1(b, pos) {
            Ok((x, p)) => pos < p && p <= b.len() && (if p <= k {
                crate::decode::sd_opt_function_v1(b.take(k as int), pos) == Ok::<
                    (Option<crate::types::FunctionV1View>, nat),
                    SchemaError,
                >((x, p))
            } else {
                ends_early(crate::decode::sd_opt_function_v1(b.take(k as int), pos))
            }),
            Err(_) => true,
        }),
{
    lemma_presence_take(b, pos, k);
    match crate::decode::sd_presence(b, pos) {
        Err(_) => {},
        Ok((present, p1)) => {
            if present {
                lemma_function_v1_take(b, p1, k);
            }
        },
    }
}

/// The truncation law for an optional function schema.
pub proof fn lemma_opt_function_v2_take(b: Seq<u8>, pos: nat, k: nat)
    requires
        k <= b.len(),
    ensures
        (match crate::decode::sd_opt_function_v2(b, pos) {
            Ok((x, p)) => pos < p && p <= b.len() && (if p <= k {
                crate::decode::sd_opt_function_v2(b.take(k as int), pos) == Ok::<
                    (Option<crate::types::FunctionV2View>, nat),
                    SchemaError,
                >((x, p))
            } else {
                ends_early(crate::decode::sd_opt_function_v2(b.take(k as int), pos))
            }),
            Err(_) => true,
        }),
{
    lemma_presence_take(b, pos, k);
    match crate::decode::sd_presence(b, pos) {
        Err(_) => {},
        Ok((present, p1)) => {
            if present {
                lemma_function_v2_take(b, p1, k);
            }
        },
    }
}

/// The truncation law for a receive-entrypoint map.
pub proof fn lemma_receive_v0_take(b: Seq<u8>, pos: nat, count: nat, k: nat)
    requires
        k <= b.len(),
        pos <= b.len(),
    ensures
        (match sd_receive_v0(b, pos, count) {
            Ok((xs, p)) => pos <= p && p <= b.len() && (pos <= k ==> (if p <= k {
                sd_receive_v0(b.take(k as int), pos, count) == Ok::<
                    (Seq<(Seq<u8>, TypeView)>, nat),
                    SchemaError,
                >((xs, p))
            } else {
                ends_early(sd_receive_v0(b.take(k as int), pos, count))
            })),
            Err(_) => true,
        }),
    decreases count,
{
    if count > 0 {
        match crate::decode::sd_name(b, pos) {
            Err(_) => {},
            Ok((n, p1)) => {
                lemma_name_take(b, pos, k);
                if pos < p1 && p1 <= b.len() {
                    lemma_type_take(b, p1, k);
                    match crate::decode::sd_type(b, p1) {
                        Err(_) => {},
                        Ok((v, p2)) => {
                            if pos < p2 && p2 <= b.len() {
                                lemma_receive_v0_take(b, p2, (count - 1) as nat, k);
                            }
                        },
                    }
                }
            },
        }
    }
}

/// The truncation law for a receive-entrypoint map.
pub proof fn lemma_receive_v1_take(b: Seq<u8>, pos: nat, count: nat, k: nat)
    requires
        k <= b.len(),
        pos <= b.len(),
    ensures
        (match sd_receive_v1(b, pos, count) {
            Ok((xs, p)) => pos <= p && p <= b.len() && (pos <= k ==> (if p <= k {
                sd_receive_v1(b.take(k as int), pos, count) == Ok::<
                    (Seq<(Seq<u8>, FunctionV1View)>, nat),
                    SchemaError,
                >((xs, p))
            } else {
                ends_early(sd_receive_v1(b.take(k as int), pos, count))
            })),
            Err(_) => true,
        }),
    decreases count,
{
    if count > 0 {
        match crate::decode::sd_name(b, pos) {
            Err(_) => {},
            Ok((n, p1)) => {
                lemma_name_take(b, pos, k);
                if pos < p1 && p1 <= b.len() {
                    lemma_function_v1_take(b, p1, k);
                    match crate::decode::sd_function_v1(b, p1) {
                        Err(_) => {},
                        Ok((v, p2)) => {
                            if pos < p2 && p2 <= b.len() {
                                lemma_receive_v1_take(b, p2, (count - 1) as nat, k);
                            }
                        },
                    }
                }
            },
        }
    }
}

/// The truncation law for a receive-entrypoint map.
pub proof fn lemma_receive_v2_take(b: Seq<u8>, pos: nat, count: nat, k: nat)
    requires
        k <= b.len(),
        pos <= b.len(),
    ensures
        (match sd_receive_v2(b, pos, count) {
            Ok((xs, p)) => pos <= p && p <= b.len() && (pos <= k ==> (if p <= k {
                sd_receive_v2(b.take(k as int), pos, count) == Ok::<
                    (Seq<(Seq<u8>, FunctionV2View)>, nat),
                    SchemaError,
                >((xs, p))
            } else {
                ends_early(sd_receive_v2(b.take(k as int), pos, count))
            })),
            Err(_) => true,
        }),
    decreases count,
{
    if count > 0 {
        match crate::decode::sd_name(b, pos) {
            Err(_) => {},
            Ok((n, p1)) => {
                lemma_name_take(b, pos, k);
                if pos < p1 && p1 <= b.len() {
                    lemma_function_v2_take(b, p1, k);
                    match crate::decode::sd_function_v2(b, p1) {
                        Err(_) => {},
                        Ok((v, p2)) => {
                            if pos < p2 && p2 <= b.len() {
                                lemma_receive_v2_take(b, p2, (count - 1) as nat, k);
                            }
                        },
                    }
                }
            },
        }
    }
}

/// The truncation law for a contract schema.
pub proof fn lemma_contract_v0_take(b: Seq<u8>, pos: nat, k: nat)
    requires
        k <= b.len(),
    ensures
        (match crate::decode::sd_contract_v0(b, pos) {
            Ok((x, p)) => pos < p && p <= b.len() && (if p <= k {
                crate::decode::sd_contract_v0(b.take(k as int), pos) == Ok::<
                    (ContractV0View, nat),
                    SchemaError,
                >((x, p))
            } else {
                ends_early(crate::decode::sd_contract_v0(b.take(k as int), pos))
            }),
            Err(_) => true,
        }),
{
    lemma_opt_type_take(b, pos, k);
    match crate::decode::sd_opt_type(b, pos) {
        Err(_) => {},
        Ok((x1, p1)) => {
            lemma_opt_type_take(b, p1, k);
            match crate::decode::sd_opt_type(b, p1) {
                Err(_) => {},
                Ok((x2, p2)) => {
                    lemma_u32_take(b, p2, k);
                    match crate::decode::sd_u32(b, p2) {
                        Err(_) => {},
                        Ok((count, p3)) => {
                            lemma_receive_v0_take(b, p3, count, k);
                        },
                    }
                },
            }
        },
    }
}

/// The truncation law for a contract schema.
pub proof fn lemma_contract_v1_take(b: Seq<u8>, pos: nat, k: nat)
    requires
        k <= b.len(),
    ensures
        (match crate::decode::sd_contract_v1(b, pos) {
            Ok((x, p)) => pos < p && p <= b.len() && (if p <= k {
                crate::decode::sd_contract_v1(b.take(k as int), pos) == Ok::<
                    (ContractV1View, nat),
                    SchemaError,
                >((x, p))
            } else {
                ends_early(crate::decode::sd_contract_v1(b.take(k as int), pos))
            }),
            Err(_) => true,
        }),
{
    lemma_opt_function_v1_take(b, pos, k);
    match crate::decode::sd_opt_function_v1(b, pos) {
        Err(_) => {},
        Ok((x1, p1)) => {
            lemma_u32_take(b, p1, k);
            match crate::decode::sd_u32(b, p1) {
                Err(_) => {},
                Ok((count, p2)) => {
                    lemma_receive_v1_take(b, p2, count, k);
                },
            }
        },
    }
}

/// The truncation law for a contract schema.
pub proof fn lemma_contract_v2_take(b: Seq<u8>, pos: nat, k: nat)
    requires
        k <= b.len(),
    ensures
        (match crate::decode::sd_contract_v2(b, pos) {
            Ok((x, p)) => pos < p && p <= b.len() && (if p <= k {
                crate::decode::sd_contract_v2(b.take(k as int), pos) == Ok::<
                    (ContractV2View, nat),
                    SchemaError,
                >((x, p))
            } else {
                ends_early(crate::decode::sd_contract_v2(b.take(k as int), pos))
            }),
            Err(_) => true,
        }),
{
    lemma_opt_function_v2_take(b, pos, k);
    match crate::decode::sd_opt_function_v2(b, pos) {
        Err(_) => {},
        Ok((x1, p1)) => {
            lemma_u32_take(b, p1, k);
            match crate::decode::sd_u32(b, p1) {
                Err(_) => {},
                Ok((count, p2)) => {
                    lemma_receive_v2_take(b, p2, count, k);
                },
            }
        },
    }
}

/// The truncation law for a contract schema.
pub proof fn lemma_contract_v3_take(b: Seq<u8>, pos: nat, k: nat)
    requires
        k <= b.len(),
    ensures
        (match crate::decode::sd_contract_v3(b, pos) {
            Ok((x, p)) => pos < p && p <= b.len() && (if p <= k {
                crate::decode::sd_contract_v3(b.take(k as int), pos) == Ok::<
                    (ContractV3View, nat),
                    SchemaError,
                >((x, p))
            } else {
                ends_early(crate::decode::sd_contract_v3(b.take(k as int), pos))
            }),
            Err(_) => true,
        }),
{
    lemma_opt_function_v2_take(b, pos, k);
    match crate::decode::sd_opt_function_v2(b, pos) {
        Err(_) => {},
        Ok((x1, p1)) => {
            lemma_opt_type_take(b, p1, k);
            match crate::decode::sd_opt_type(b, p1) {
                Err(_) => {},
                Ok((x2, p2)) => {
                    lemma_u32_take(b, p2, k);
                    match crate::decode::sd_u32(b, p2) {
                        Err(_) => {},
                        Ok((count, p3)) => {
                            lemma_receive_v2_take(b, p3, count, k);
                        },
                    }
                },
            }
        },
    }
}

/// The truncation law for a contract map.
pub proof fn lemma_contracts_v0_take(b: Seq<u8>, pos: nat, count: nat, k: nat)
    requires
        k <= b.len(),
        pos <= b.len(),
    ensures
        (match sd_contracts_v0(b, pos, count) {
            Ok((xs, p)) => pos <= p && p <= b.len() && (pos <= k ==> (if p <= k {
                sd_contracts_v0(b.take(k as int), pos, count) == Ok::<
                    (Seq<(Seq<u8>, ContractV0View)>, nat),
                    SchemaError,
                >((xs, p))
            } else {
                ends_early(sd_contracts_v0(b.take(k as int), pos, count))
            })),
            Err(_) => true,
        }),
    decreases count,
{
    if count > 0 {
        match crate::decode::sd_name(b, pos) {
            Err(_) => {},
            Ok((n, p1)) => {
                lemma_name_take(b, pos, k);
                if pos < p1 && p1 <= b.len() {
                    lemma_contract_v0_take(b, p1, k);
                    match crate::decode::sd_contract_v0(b, p1) {
                        Err(_) => {},
                        Ok((c, p2)) => {
                            if pos < p2 && p2 <= b.len() {
                                lemma_contracts_v0_take(b, p2, (count - 1) as nat, k);
                            }
                        },
                    }
                }
            },
        }
    }
}

/// The truncation law for a contract map.
pub proof fn lemma_contracts_v1_take(b: Seq<u8>, pos: nat, count: nat, k: nat)
    requires
        k <= b.len(),
        pos <= b.len(),
    ensures
        (match sd_contracts_v1(b, pos, count) {
            Ok((xs, p)) => pos <= p && p <= b.len() && (pos <= k ==> (if p <= k {
                sd_contracts_v1(b.take(k as int), pos, count) == Ok::<
                    (Seq<(Seq<u8>, ContractV1View)>, nat),
                    SchemaError,
                >((xs, p))
            } else {
                ends_early(sd_contracts_v1(b.take(k as int), pos, count))
            })),
            Err(_) => true,
        }),
    decreases count,
{
    if count > 0 {
        match crate::decode::sd_name(b, pos) {
            Err(_) => {},
            Ok((n, p1)) => {
                lemma_name_take(b, pos, k);
                if pos < p1 && p1 <= b.len() {
                    lemma_contract_v1_take(b, p1, k);
                    match crate::decode::sd_contract_v1(b, p1) {
                        Err(_) => {},
                        Ok((c, p2)) => {
                            if pos < p2 && p2 <= b.len() {
                                lemma_contracts_v1_take(b, p2, (count - 1) as nat, k);
                            }
                        },
                    }
                }
            },
        }
    }
}

/// The truncation law for a contract map.
pub proof fn lemma_contracts_v2_take(b: Seq<u8>, pos: nat, count: nat, k: nat)
    requires
        k <= b.len(),
        pos <= b.len(),
    ensures
        (match sd_contracts_v2(b, pos, count) {
            Ok((xs, p)) => pos <= p && p <= b.len() && (pos <= k ==> (if p <= k {
                sd_contracts_v2(b.take(k as int), pos, count) == Ok::<
                    (Seq<(Seq<u8>, ContractV2View)>, nat),
                    SchemaError,
                >((xs, p))
            } else {
                ends_early(sd_contracts_v2(b.take(k as int), pos, count))
            })),
            Err(_) => true,
        }),
    decreases count,
{
    if count > 0 {
        match crate::decode::sd_name(b, pos) {
            Err(_) => {},
            Ok((n, p1)) => {
                lemma_name_take(b, pos, k);
                if pos < p1 && p1 <= b.len() {
                    lemma_contract_v2_take(b, p1, k);
                    match crate::decode::sd_contract_v2(b, p1) {
                        Err(_) => {},
                        Ok((c, p2)) => {
                            if pos < p2 && p2 <= b.len() {
                                lemma_contracts_v2_take(b, p2, (count - 1) as nat, k);
                            }
                        },
                    }
                }
            },
        }
    }
}

/// The truncation law for a contract map.
pub proof fn lemma_contracts_v3_take(b: Seq<u8>, pos: nat, count: nat, k: nat)
    requires
        k <= b.len(),
        pos <= b.len(),
    ensures
        (match sd_contracts_v3(b, pos, count) {
            Ok((xs, p)) => pos <= p && p <= b.len() && (pos <= k ==> (if p <= k {
                sd_contracts_v3(b.take(k as int), pos, count) == Ok::<
                    (Seq<(Seq<u8>, ContractV3View)>, nat),
                    SchemaError,
                >((xs, p))
            } else {
                ends_early(sd_contracts_v3(b.take(k as int), pos, count))
            })),
            Err(_) => true,
        }),
    decreases count,
{
    if count > 0 {
        match crate::decode::sd_name(b, pos) {
            Err(_) => {},
            Ok((n, p1)) => {
                lemma_name_take(b, pos, k);
                if pos < p1 && p1 <= b.len() {
                    lemma_contract_v3_take(b, p1, k);
                    match crate::decode::sd_contract_v3(b, p1) {
                        Err(_) => {},
                        Ok((c, p2)) => {
                            if pos < p2 && p2 <= b.len() {
                                lemma_contracts_v3_take(b, p2, (count - 1) as nat, k);
                            }
                        },
                    }
                }
            },
        }
    }
}


/// Truncating a parseable stream never yields a different module: whatever
/// prefix of the stream is kept, parsing it either fails or produces exactly
/// the module the whole stream produces.
pub proof fn lemma_parse_schema_truncation(hint: Option<WasmVersion>, b: Seq<u8>, k: nat)
    requires
        k <= b.len(),
    ensures
        (match spec_parse_schema(hint, b) {
            Ok(m) => match spec_parse_schema(hint, b.take(k as int)) {
                Ok(m2) => m2 == m,
                Err(_) => true,
            },
            Err(_) => true,
        }),
{
    let t = b.take(k as int);
    if k >= 2 {
        assert(t[0] == b[0]);
        assert(t[1] == b[1]);
    }
    if crate::decode::has_magic(b) {
        if k >= 2 {
            match crate::decode::sd_u8(b, 2) {
                Err(_) => {},
                Ok((g, p1)) => {
                    lemma_u8_take(b, 2, k);
                    lemma_u32_take(b, p1, k);
                    match crate::decode::sd_u32(b, p1) {
                        Err(_) => {},
                        Ok((count, p2)) => {
                            if g == 0 {
                                lemma_contracts_v0_take(b, p2, count, k);
                            } else if g == 1 {
                                lemma_contracts_v1_take(b, p2, count, k);
                            } else if g == 2 {
                                lemma_contracts_v2_take(b, p2, count, k);
                            } else if g == 3 {
                                lemma_contracts_v3_take(b, p2, count, k);
                            }
                        },
                    }
                },
            }
        }
    } else {
        match hint {
            Option::None => {},
            Option::Some(WasmVersion::V0) => {
                lemma_u32_take(b, 0, k);
                match crate::decode::sd_u32(b, 0) {
                    Err(_) => {},
                    Ok((count, p1)) => {
                        lemma_contracts_v0_take(b, p1, count, k);
                    },
                }
            },
            Option::Some(WasmVersion::V1) => {
                lemma_u32_take(b, 0, k);
                match crate::decode::sd_u32(b, 0) {
                    Err(_) => {},
                    Ok((count, p1)) => {
                        lemma_contracts_v1_take(b, p1, count, k);
                    },
                }
            },
        }
    }
}

} // verus!
