//! The laws the engine obeys, stated and proved once for all schemas.
//!
//! Each law here is a consequence of the specification functions that the
//! executable functions' contracts are stated over, so it holds of every
//! parse and every rendering the library performs.

use vstd::prelude::*;

use crate::coerce::{spec_coerce, spec_scalar_coerce, SpecArgValue, SpecParseError, SpecSlot};
use crate::help::spec_help;
use crate::scan::{spec_init_slot, spec_init_slots, spec_parse, spec_scan};
use crate::schema::{
    field_wf, keys_disjoint, schema_wf, spec_arg_indices, spec_find_opt, spec_find_opt_from,
    spec_keys, token_matches, SpecField, SpecFieldKind,
};
use crate::value::{
    scalar_has_kind, scalar_of, spec_default_value, value_has_type, Scalar, SpecScalarValue,
    SpecValue, ValueType,
};

verus! {

/// Positional tokens bind argument fields in declaration order: at every
/// scan step that treats a token positionally, the field bound is the one
/// `spec_arg_indices` lists at the current counter, those listed earlier
/// stand earlier in the declaration, and the counter then moves on by one.
pub proof fn lemma_positional_binds_in_declaration_order(
    fields: Seq<SpecField>,
    tokens: Seq<Seq<char>>,
    pos: int,
    slots: Seq<SpecSlot>,
    cnt: int,
)
    requires
        0 <= pos < tokens.len(),
        spec_find_opt(fields, tokens[pos]) is None,
        0 <= cnt < spec_arg_indices(fields).len(),
    ensures
        ({
            let j = spec_arg_indices(fields)[cnt];
            &&& 0 <= j < fields.len()
            &&& fields[j].kind is Arg
            &&& forall|k: int| 0 <= k < cnt ==> #[trigger] spec_arg_indices(fields)[k] < j
            &&& spec_scan(fields, tokens, pos, slots, cnt) == ({
                let (r, p2) = spec_coerce(
                    fields[j].vt,
                    slots[j],
                    SpecArgValue::FromArgument(tokens[pos]),
                    tokens,
                    pos + 1,
                );
                match r {
                    Ok(v) => spec_scan(fields, tokens, p2, slots.update(j, SpecSlot::Filled(v)), cnt + 1),
                    Err(e) => Err(e),
                }
            })
        }),
{
    crate::schema::lemma_arg_indices_props(fields);
}

/// Option keys take precedence over positional matching: at every scan
/// step whose token is a declared key, the matched option field consumes
/// the token and the positional counter stays where it was, so the token
/// is never bound to an argument field.
pub proof fn lemma_option_precedes_positional(
    fields: Seq<SpecField>,
    tokens: Seq<Seq<char>>,
    pos: int,
    slots: Seq<SpecSlot>,
    cnt: int,
    i: int,
)
    requires
        0 <= pos < tokens.len(),
        spec_find_opt(fields, tokens[pos]) == Some(i),
        0 <= i < fields.len(),
    ensures
        spec_scan(fields, tokens, pos, slots, cnt) == ({
            let (r, p2) = spec_coerce(
                fields[i].vt,
                slots[i],
                SpecArgValue::FromOption(tokens[pos]),
                tokens,
                pos + 1,
            );
            match r {
                Ok(v) => spec_scan(fields, tokens, p2, slots.update(i, SpecSlot::Filled(v)), cnt),
                Err(e) => Err(e),
            }
        }),
{
}

/// A boolean option never consumes a following token: coercing any value
/// type over the boolean scalar from an option occurrence leaves the
/// stream cursor where it was, always succeeds, and the scalar produced is
/// `true`.
pub proof fn lemma_bool_option_consumes_no_token(
    vt: ValueType,
    prev: SpecSlot,
    key: Seq<char>,
    tokens: Seq<Seq<char>>,
    pos: int,
)
    requires
        scalar_of(vt) == Scalar::Bool,
    ensures
        ({
            let (r, p2) = spec_coerce(vt, prev, SpecArgValue::FromOption(key), tokens, pos);
            &&& p2 == pos
            &&& r is Ok
            &&& spec_scalar_coerce(scalar_of(vt), SpecArgValue::FromOption(key), tokens, pos).0
                == Ok::<SpecScalarValue, SpecParseError>(SpecScalarValue::Bool(true))
        }),
{
}

/// A missing required positional input is fatal: a schema that declares an
/// argument field parses the empty stream to the missing-argument fault,
/// never to a record.
pub proof fn lemma_missing_argument_is_fatal(fields: Seq<SpecField>, i: int)
    requires
        0 <= i < fields.len(),
        fields[i].kind is Arg,
    ensures
        spec_parse(fields, Seq::empty()) == Err::<Seq<SpecValue>, SpecParseError>(
            SpecParseError::MissingArgument,
        ),
{
    let slots = spec_init_slots(fields);
    assert(spec_scan(fields, Seq::empty(), 0, slots, 0) == Ok::<Seq<SpecSlot>, SpecParseError>(
        slots,
    ));
    assert(slots[i] == spec_init_slot(fields[i]));
    assert(slots[i] is Vacant);
}

/// An option missing its value is fatal: where the last token of the
/// stream is a key of a non-boolean option field, the scan fails with the
/// missing-option-value fault carrying that key, whatever the state so
/// far.
pub proof fn lemma_missing_option_value_is_fatal(
    fields: Seq<SpecField>,
    tokens: Seq<Seq<char>>,
    slots: Seq<SpecSlot>,
    cnt: int,
    i: int,
)
    requires
        tokens.len() > 0,
        spec_find_opt(fields, tokens[tokens.len() - 1]) == Some(i),
        0 <= i < fields.len(),
        scalar_of(fields[i].vt) != Scalar::Bool,
    ensures
        spec_scan(fields, tokens, tokens.len() - 1, slots, cnt) == Err::<
            Seq<SpecSlot>,
            SpecParseError,
        >(SpecParseError::MissingOptionValue(tokens[tokens.len() - 1])),
{
}

/// A repeated option accumulates in encounter order: a successful coercion
/// of a repeated field appends the occurrence's scalar to the list
/// accumulated so far, keeping everything already there.
pub proof fn lemma_repeated_appends(
    vt: ValueType,
    prev: SpecSlot,
    arg: SpecArgValue,
    tokens: Seq<Seq<char>>,
    pos: int,
)
    requires
        vt is Repeated,
        spec_coerce(vt, prev, arg, tokens, pos).0 is Ok,
    ensures
        ({
            let sr = spec_scalar_coerce(scalar_of(vt), arg, tokens, pos).0;
            &&& sr is Ok
            &&& spec_coerce(vt, prev, arg, tokens, pos).0 == Ok::<SpecValue, SpecParseError>(
                SpecValue::Repeated(crate::coerce::spec_prev_list(prev).push(sr->Ok_0)),
            )
        }),
{
}

/// An optional-typed option overwrites on repeat: what a coercion of an
/// optional field produces does not depend on the slot's earlier value at
/// all, so a later occurrence replaces an earlier one instead of
/// accumulating.
pub proof fn lemma_optional_overwrites(
    vt: ValueType,
    prev1: SpecSlot,
    prev2: SpecSlot,
    arg: SpecArgValue,
    tokens: Seq<Seq<char>>,
    pos: int,
)
    requires
        vt is Optional,
    ensures
        spec_coerce(vt, prev1, arg, tokens, pos) == spec_coerce(vt, prev2, arg, tokens, pos),
{
}

/// An untouched slot survives the scan: where no token of the stream is a
/// key of option field `i`, the scan leaves that field's slot exactly as
/// it found it.
proof fn lemma_untouched_option_slot(
    fields: Seq<SpecField>,
    tokens: Seq<Seq<char>>,
    pos: int,
    slots: Seq<SpecSlot>,
    cnt: int,
    i: int,
)
    requires
        0 <= i < fields.len(),
        slots.len() == fields.len(),
        fields[i].kind is Opt,
        forall|p: int| pos <= p < tokens.len() ==> spec_find_opt(fields, #[trigger] tokens[p]) != Some(i),
        spec_scan(fields, tokens, pos, slots, cnt) is Ok,
    ensures
        ({
            let out = spec_scan(fields, tokens, pos, slots, cnt)->Ok_0;
            out.len() == slots.len() && out[i] == slots[i]
        }),
    decreases tokens.len() - pos,
{
    if pos < 0 || pos >= tokens.len() {
    } else {
        let tok = tokens[pos];
        match spec_find_opt(fields, tok) {
            Some(j) => {
                crate::schema::lemma_find_opt_range(fields, tok, 0);
                assert(0 <= j < fields.len());
                let (r, p2) = spec_coerce(
                    fields[j].vt,
                    slots[j],
                    SpecArgValue::FromOption(tok),
                    tokens,
                    pos + 1,
                );
                match r {
                    Ok(v) => {
                        assert(j != i);
                        lemma_untouched_option_slot(
                            fields,
                            tokens,
                            p2,
                            slots.update(j, SpecSlot::Filled(v)),
                            cnt,
                            i,
                        );
                    },
                    Err(_) => {},
                }
            },
            None => {
                if 0 <= cnt < spec_arg_indices(fields).len() {
                    let j = spec_arg_indices(fields)[cnt];
                    crate::schema::lemma_arg_indices_props(fields);
                    assert(fields[j].kind is Arg);
                    assert(j != i);
                    let (r, p2) = spec_coerce(
                        fields[j].vt,
                        slots[j],
                        SpecArgValue::FromArgument(tok),
                        tokens,
                        pos + 1,
                    );
                    match r {
                        Ok(v) => {
                            lemma_untouched_option_slot(
                                fields,
                                tokens,
                                p2,
                                slots.update(j, SpecSlot::Filled(v)),
                                cnt + 1,
                                i,
                            );
                        },
                        Err(_) => {},
                    }
                } else {
                    lemma_untouched_option_slot(fields, tokens, pos + 1, slots, cnt, i);
                }
            },
        }
    }
}

/// Defaults apply where an option is absent: in any successful parse of a
/// stream none of whose tokens is a key of option field `i`, that field's
/// value is its declared default — or, without one, its type's zero value.
pub proof fn lemma_absent_option_keeps_default(
    fields: Seq<SpecField>,
    tokens: Seq<Seq<char>>,
    i: int,
)
    requires
        0 <= i < fields.len(),
        fields[i].kind is Opt,
        forall|p: int| 0 <= p < tokens.len() ==> spec_find_opt(fields, #[trigger] tokens[p]) != Some(i),
        spec_parse(fields, tokens) is Ok,
    ensures
        spec_parse(fields, tokens)->Ok_0[i] == match fields[i].kind {
            SpecFieldKind::Opt(m) => match m.default {
                Some(d) => SpecValue::Single(d),
                None => spec_default_value(fields[i].vt),
            },
            SpecFieldKind::Arg(_) => spec_parse(fields, tokens)->Ok_0[i],
        },
{
    let slots = spec_init_slots(fields);
    lemma_untouched_option_slot(fields, tokens, 0, slots, 0, i);
    assert(slots[i] == spec_init_slot(fields[i]));
}

/// A schema of option fields alone parses the empty stream to one value
/// per field — the declared default where the field has one, the type's
/// zero value where not.
pub proof fn lemma_empty_stream_yields_defaults(fields: Seq<SpecField>)
    requires
        forall|i: int| 0 <= i < fields.len() ==> (#[trigger] fields[i].kind) is Opt,
    ensures
        spec_parse(fields, Seq::empty()) matches Ok(vals) && vals.len() == fields.len() && forall|
            i: int,
        |
            0 <= i < fields.len() ==> #[trigger] vals[i] == match fields[i].kind {
                SpecFieldKind::Opt(m) => match m.default {
                    Some(d) => SpecValue::Single(d),
                    None => spec_default_value(fields[i].vt),
                },
                SpecFieldKind::Arg(_) => vals[i],
            },
{
    let slots = spec_init_slots(fields);
    assert(spec_scan(fields, Seq::empty(), 0, slots, 0) == Ok::<Seq<SpecSlot>, SpecParseError>(
        slots,
    ));
    assert(forall|i: int| 0 <= i < fields.len() ==> (#[trigger] slots[i]) is Filled);
}

/// A slot is typed by a value type where it is unbound or holds a value of
/// that type.
pub open spec fn slot_typed(slot: SpecSlot, vt: ValueType) -> bool {
    match slot {
        SpecSlot::Vacant => true,
        SpecSlot::Filled(v) => value_has_type(v, vt),
    }
}

/// One slot per field, each typed by its field's value type.
pub open spec fn slots_typed(fields: Seq<SpecField>, slots: Seq<SpecSlot>) -> bool {
    slots.len() == fields.len() && forall|i: int|
        0 <= i < fields.len() ==> slot_typed(#[trigger] slots[i], fields[i].vt)
}

/// A successful coercion produces a value of the field's declared type,
/// provided the slot it grew from was typed.
proof fn lemma_coerce_preserves_typing(
    vt: ValueType,
    prev: SpecSlot,
    arg: SpecArgValue,
    tokens: Seq<Seq<char>>,
    pos: int,
)
    requires
        slot_typed(prev, vt),
        spec_coerce(vt, prev, arg, tokens, pos).0 is Ok,
    ensures
        value_has_type(spec_coerce(vt, prev, arg, tokens, pos).0->Ok_0, vt),
{
    let sr = spec_scalar_coerce(scalar_of(vt), arg, tokens, pos).0;
    assert(sr is Ok);
    assert(scalar_has_kind(sr->Ok_0, scalar_of(vt)));
    if vt is Repeated {
        let l = crate::coerce::spec_prev_list(prev);
        assert(forall|k: int| 0 <= k < l.len() ==> scalar_has_kind(#[trigger] l[k], scalar_of(vt)));
        assert(forall|k: int|
            0 <= k < l.push(sr->Ok_0).len() ==> scalar_has_kind(
                #[trigger] l.push(sr->Ok_0)[k],
                scalar_of(vt),
            ));
    }
}

/// The scan preserves the typing of every slot.
proof fn lemma_scan_preserves_typing(
    fields: Seq<SpecField>,
    tokens: Seq<Seq<char>>,
    pos: int,
    slots: Seq<SpecSlot>,
    cnt: int,
)
    requires
        slots_typed(fields, slots),
        spec_scan(fields, tokens, pos, slots, cnt) is Ok,
    ensures
        slots_typed(fields, spec_scan(fields, tokens, pos, slots, cnt)->Ok_0),
    decreases tokens.len() - pos,
{
    if pos < 0 || pos >= tokens.len() {
    } else {
        let tok = tokens[pos];
        match spec_find_opt(fields, tok) {
            Some(j) => {
                crate::schema::lemma_find_opt_range(fields, tok, 0);
                let (r, p2) = spec_coerce(
                    fields[j].vt,
                    slots[j],
                    SpecArgValue::FromOption(tok),
                    tokens,
                    pos + 1,
                );
                match r {
                    Ok(v) => {
                        lemma_coerce_preserves_typing(
                            fields[j].vt,
                            slots[j],
                            SpecArgValue::FromOption(tok),
                            tokens,
                            pos + 1,
                        );
                        lemma_scan_preserves_typing(
                            fields,
                            tokens,
                            p2,
                            slots.update(j, SpecSlot::Filled(v)),
                            cnt,
                        );
                    },
                    Err(_) => {},
                }
            },
            None => {
                if 0 <= cnt < spec_arg_indices(fields).len() {
                    let j = spec_arg_indices(fields)[cnt];
                    crate::schema::lemma_arg_indices_props(fields);
                    let (r, p2) = spec_coerce(
                        fields[j].vt,
                        slots[j],
                        SpecArgValue::FromArgument(tok),
                        tokens,
                        pos + 1,
                    );
                    match r {
                        Ok(v) => {
                            lemma_coerce_preserves_typing(
                                fields[j].vt,
                                slots[j],
                                SpecArgValue::FromArgument(tok),
                                tokens,
                                pos + 1,
                            );
                            lemma_scan_preserves_typing(
                                fields,
                                tokens,
                                p2,
                                slots.update(j, SpecSlot::Filled(v)),
                                cnt + 1,
                            );
                        },
                        Err(_) => {},
                    }
                } else {
                    lemma_scan_preserves_typing(fields, tokens, pos + 1, slots, cnt);
                }
            },
        }
    }
}

/// A successful parse of a lawful schema is well-typed: each field's value
/// is of that field's declared value type.
pub proof fn lemma_parse_is_well_typed(fields: Seq<SpecField>, tokens: Seq<Seq<char>>)
    requires
        forall|i: int| 0 <= i < fields.len() ==> field_wf(#[trigger] fields[i]),
        spec_parse(fields, tokens) is Ok,
    ensures
        ({
            let vals = spec_parse(fields, tokens)->Ok_0;
            vals.len() == fields.len() && forall|i: int|
                0 <= i < fields.len() ==> value_has_type(#[trigger] vals[i], fields[i].vt)
        }),
{
    let init = spec_init_slots(fields);
    assert(slots_typed(fields, init)) by {
        assert forall|i: int| 0 <= i < fields.len() implies slot_typed(
            #[trigger] init[i],
            fields[i].vt,
        ) by {
            assert(init[i] == spec_init_slot(fields[i]));
            assert(field_wf(fields[i]));
            lemma_default_value_typed(fields[i].vt);
        }
    }
    lemma_scan_preserves_typing(fields, tokens, 0, init, 0);
    let end = spec_scan(fields, tokens, 0, init, 0)->Ok_0;
    let vals = spec_parse(fields, tokens)->Ok_0;
    assert forall|i: int| 0 <= i < fields.len() implies value_has_type(
        #[trigger] vals[i],
        fields[i].vt,
    ) by {
        assert(slot_typed(end[i], fields[i].vt));
        lemma_default_value_typed(fields[i].vt);
    }
}

/// The zero value of a value type is of that type.
proof fn lemma_default_value_typed(t: ValueType)
    ensures
        value_has_type(spec_default_value(t), t),
{
}

/// Help rendering is a function of the schema, the command path, and the
/// padding width alone — it reads no argument stream and no parse state —
/// so any two renderings of the same inputs are byte-identical.
pub proof fn lemma_help_deterministic(
    fields: Seq<SpecField>,
    command: Seq<char>,
    padding: nat,
    r1: Seq<char>,
    r2: Seq<char>,
)
    requires
        r1 == spec_help(fields, command, padding),
        r2 == spec_help(fields, command, padding),
    ensures
        r1 == r2,
{
}

/// In a lawful schema every key resolves to the field that declared it:
/// matching any of a field's keys — declared short or long, or the derived
/// `--<name>` — finds that field and no other.
pub proof fn lemma_keys_resolve_to_declaring_field(fields: Seq<SpecField>, i: int, k: Seq<char>)
    requires
        schema_wf(fields),
        0 <= i < fields.len(),
        spec_keys(fields[i]).contains(k),
    ensures
        spec_find_opt(fields, k) == Some(i),
{
    assert forall|p: int| 0 <= p < i implies !token_matches(fields[p], k) by {
        assert(keys_disjoint(fields[p], fields[i]));
        if spec_keys(fields[p]).contains(k) {
            assert(!spec_keys(fields[i]).contains(k));
        }
    }
    lemma_find_opt_skips(fields, k, 0, i);
}

proof fn lemma_find_opt_skips(fields: Seq<SpecField>, k: Seq<char>, j: nat, i: int)
    requires
        j <= i < fields.len(),
        token_matches(fields[i], k),
        forall|p: int| j <= p < i ==> !token_matches(#[trigger] fields[p], k),
    ensures
        spec_find_opt_from(fields, k, j) == Some(i),
    decreases i - j,
{
    if j < i {
        lemma_find_opt_skips(fields, k, j + 1, i);
    }
}

} // verus!
