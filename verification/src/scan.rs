//! The token scanner: one forward pass over the argument stream.
//!
//! Each token is first held against every option field's keys, in
//! declaration order — the first field one of whose keys equals the token
//! consumes it (and, for non-boolean kinds, the following token as its
//! value). A token that is no declared key binds to the next unbound
//! argument field, in declaration order; once every argument field is
//! bound, such a token is ignored. When the stream is exhausted, every
//! argument field must have been bound, else the parse fails; option fields
//! that never occurred keep their initial value — the declared default, or
//! the type's zero value.

use vstd::prelude::*;

use crate::coerce::{
    coerce, spec_coerce, ArgValue, ParseError, Slot, SpecArgValue, SpecParseError, SpecSlot,
};
use crate::schema::{
    arg_indices, find_opt, lemma_arg_indices_props, spec_arg_indices, spec_find_opt, FieldKind,
    FieldSpec, Schema, SpecField, SpecFieldKind,
};
use crate::value::{default_value, spec_default_value, SpecValue, Value};

verus! {

/// The initial slot of one field: an option field starts holding its
/// declared default — or, without one, its type's zero value — and an
/// argument field starts unbound.
pub open spec fn spec_init_slot(f: SpecField) -> SpecSlot {
    match f.kind {
        SpecFieldKind::Arg(_) => SpecSlot::Vacant,
        SpecFieldKind::Opt(m) => SpecSlot::Filled(
            match m.default {
                Some(d) => SpecValue::Single(d),
                None => spec_default_value(f.vt),
            },
        ),
    }
}

/// The initial parse state: one slot per field, in declaration order.
pub open spec fn spec_init_slots(fields: Seq<SpecField>) -> Seq<SpecSlot> {
    Seq::new(fields.len(), |i: int| spec_init_slot(fields[i]))
}

/// Builds the initial parse state.
fn init_slots(fields: &Vec<FieldSpec>) -> (r: Vec<Slot>)
    ensures
        r.deep_view() == spec_init_slots(fields.deep_view()),
{
    let mut r: Vec<Slot> = Vec::new();
    let mut i: usize = 0;
    while i < fields.len()
        invariant
            i <= fields.len(),
            r@.len() == i,
            forall|k: int|
                0 <= k < i ==> #[trigger] r@[k]@ == spec_init_slot(fields.deep_view()[k]),
        decreases fields.len() - i,
    {
        let f = &fields[i];
        proof {
            assert(fields.deep_view()[i as int] == fields@[i as int].deep_view());
        }
        let slot = match &f.kind {
            FieldKind::Arg(_) => Slot::Vacant,
            FieldKind::Opt(m) => Slot::Filled(
                match &m.default {
                    Some(d) => Value::Single(d.duplicate()),
                    None => default_value(&f.vt),
                },
            ),
        };
        r.push(slot);
        i += 1;
    }
    proof {
        assert(r.deep_view() =~= spec_init_slots(fields.deep_view()));
    }
    r
}

/// The state of the scan after reading the stream from position `pos` to
/// its end, starting from the given slots and positional counter; or the
/// first fault met on the way.
pub open spec fn spec_scan(
    fields: Seq<SpecField>,
    tokens: Seq<Seq<char>>,
    pos: int,
    slots: Seq<SpecSlot>,
    cnt: int,
) -> Result<Seq<SpecSlot>, SpecParseError>
    decreases tokens.len() - pos,
{
    if pos < 0 || pos >= tokens.len() {
        Ok(slots)
    } else {
        let tok = tokens[pos];
        match spec_find_opt(fields, tok) {
            Some(i) => {
                let (r, p2) = spec_coerce(
                    fields[i].vt,
                    slots[i],
                    SpecArgValue::FromOption(tok),
                    tokens,
                    pos + 1,
                );
                match r {
                    Ok(v) => spec_scan(fields, tokens, p2, slots.update(i, SpecSlot::Filled(v)), cnt),
                    Err(e) => Err(e),
                }
            },
            None => {
                if 0 <= cnt < spec_arg_indices(fields).len() {
                    let j = spec_arg_indices(fields)[cnt];
                    let (r, p2) = spec_coerce(
                        fields[j].vt,
                        slots[j],
                        SpecArgValue::FromArgument(tok),
                        tokens,
                        pos + 1,
                    );
                    match r {
                        Ok(v) => spec_scan(
                            fields,
                            tokens,
                            p2,
                            slots.update(j, SpecSlot::Filled(v)),
                            cnt + 1,
                        ),
                        Err(e) => Err(e),
                    }
                } else {
                    spec_scan(fields, tokens, pos + 1, slots, cnt)
                }
            },
        }
    }
}

/// The final projection of the parse state: fails where any argument field
/// is still unbound; otherwise one value per field, in declaration order.
pub open spec fn spec_finalize(fields: Seq<SpecField>, slots: Seq<SpecSlot>) -> Result<
    Seq<SpecValue>,
    SpecParseError,
> {
    if exists|i: int|
        0 <= i < fields.len() && (#[trigger] fields[i].kind) is Arg && slots[i] is Vacant {
        Err(SpecParseError::MissingArgument)
    } else {
        Ok(
            Seq::new(
                fields.len(),
                |i: int|
                    match slots[i] {
                        SpecSlot::Filled(v) => v,
                        SpecSlot::Vacant => spec_default_value(fields[i].vt),
                    },
            ),
        )
    }
}

/// What parsing a token stream against a schema yields: the scan from the
/// initial state over the whole stream, projected into one value per field.
pub open spec fn spec_parse(fields: Seq<SpecField>, tokens: Seq<Seq<char>>) -> Result<
    Seq<SpecValue>,
    SpecParseError,
> {
    match spec_scan(fields, tokens, 0, spec_init_slots(fields), 0) {
        Ok(slots) => spec_finalize(fields, slots),
        Err(e) => Err(e),
    }
}

impl Schema {
    /// Parses an argument stream against this schema.
    ///
    /// Returns one value per declared field, in declaration order, exactly
    /// as [`spec_parse`] describes: option occurrences overwrite or append
    /// into their field's slot, positional tokens bind the argument fields
    /// in declaration order, and the parse fails exactly where a non-boolean
    /// option ends the stream, a token fails to read as its field's scalar
    /// kind, or an argument field is never bound.
    pub fn parse_args(&self, tokens: &Vec<String>) -> (r: Result<Vec<Value>, ParseError>)
        ensures
            r is Ok <==> spec_parse(self@, tokens.deep_view()) is Ok,
            r matches Ok(vals) ==> spec_parse(self@, tokens.deep_view()) == Ok::<
                Seq<SpecValue>,
                SpecParseError,
            >(vals.deep_view()),
            r matches Err(e) ==> spec_parse(self@, tokens.deep_view()) == Err::<
                Seq<SpecValue>,
                SpecParseError,
            >(e@),
    {
        let ghost sf = self@;
        let ghost st = tokens.deep_view();
        let fields = &self.fields;
        let arg_idx = arg_indices(fields);
        let mut slots = init_slots(fields);
        let mut cnt: usize = 0;
        let mut pos: usize = 0;
        proof {
            lemma_arg_indices_props(sf);
            assert(slots.deep_view().len() == slots@.len());
            assert(spec_init_slots(sf).len() == sf.len());
            assert(sf.len() == fields@.len());
        }
        while pos < tokens.len()
            invariant
                pos <= tokens@.len(),
                st == tokens.deep_view(),
                sf == self@,
                fields == &self.fields,
                st.len() == tokens@.len(),
                slots@.len() == fields@.len(),
                cnt <= arg_idx@.len(),
                arg_idx@.len() == spec_arg_indices(sf).len(),
                forall|k: int|
                    0 <= k < arg_idx@.len() ==> #[trigger] arg_idx@[k] == spec_arg_indices(sf)[k],
                forall|k: int|
                    0 <= k < spec_arg_indices(sf).len() ==> 0 <= #[trigger] spec_arg_indices(
                        sf,
                    )[k] < fields@.len(),
                spec_scan(sf, st, pos as int, slots.deep_view(), cnt as int) == spec_scan(
                    sf,
                    st,
                    0,
                    spec_init_slots(sf),
                    0,
                ),
            decreases tokens@.len() - pos,
        {
            let ghost pre_slots = slots.deep_view();
            let ghost pre_pos = pos as int;
            let ghost pre_cnt = cnt as int;
            let tok = &tokens[pos];
            proof {
                assert(st[pre_pos] == tokens@[pre_pos]@);
            }
            match find_opt(fields, tok) {
                Some(i) => {
                    let arg = ArgValue::FromOption(tok.clone());
                    pos += 1;
                    let c = coerce(&fields[i].vt, &slots[i], arg, tokens, &mut pos);
                    proof {
                        assert(fields.deep_view()[i as int] == fields@[i as int].deep_view());
                        assert(slots.deep_view()[i as int] == slots@[i as int]@);
                    }
                    match c {
                        Ok(v) => {
                            slots.set(i, Slot::Filled(v));
                            proof {
                                assert(slots.deep_view() =~= pre_slots.update(
                                    i as int,
                                    SpecSlot::Filled(v@),
                                ));
                            }
                        },
                        Err(e) => {
                            proof {
                                assert(spec_scan(sf, st, pre_pos, pre_slots, pre_cnt)
                                    == Err::<Seq<SpecSlot>, SpecParseError>(e@));
                            }
                            return Err(e);
                        },
                    }
                },
                None => {
                    if cnt < arg_idx.len() {
                        let j = arg_idx[cnt];
                        let arg = ArgValue::FromArgument(tok.clone());
                        pos += 1;
                        let c = coerce(&fields[j].vt, &slots[j], arg, tokens, &mut pos);
                        proof {
                            assert(fields.deep_view()[j as int] == fields@[j as int].deep_view());
                            assert(slots.deep_view()[j as int] == slots@[j as int]@);
                        }
                        match c {
                            Ok(v) => {
                                slots.set(j, Slot::Filled(v));
                                cnt += 1;
                                proof {
                                    assert(slots.deep_view() =~= pre_slots.update(
                                        j as int,
                                        SpecSlot::Filled(v@),
                                    ));
                                }
                            },
                            Err(e) => {
                                proof {
                                    assert(spec_scan(sf, st, pre_pos, pre_slots, pre_cnt)
                                        == Err::<Seq<SpecSlot>, SpecParseError>(e@));
                                }
                                return Err(e);
                            },
                        }
                    } else {
                        pos += 1;
                    }
                },
            }
        }
        // The stream is exhausted: project the slots into the result.
        proof {
            assert(spec_scan(sf, st, pos as int, slots.deep_view(), cnt as int) == Ok::<
                Seq<SpecSlot>,
                SpecParseError,
            >(slots.deep_view()));
        }
        let ghost end_slots = slots.deep_view();
        let mut vals: Vec<Value> = Vec::new();
        let mut i: usize = 0;
        while i < fields.len()
            invariant
                i <= fields@.len(),
                sf == self@,
                st == tokens.deep_view(),
                fields == &self.fields,
                slots@.len() == fields@.len(),
                end_slots == slots.deep_view(),
                spec_scan(sf, st, 0, spec_init_slots(sf), 0) == Ok::<Seq<SpecSlot>, SpecParseError>(
                    end_slots,
                ),
                vals@.len() == i,
                forall|k: int|
                    0 <= k < i ==> !((#[trigger] sf[k].kind) is Arg && end_slots[k] is Vacant),
                forall|k: int|
                    0 <= k < i ==> #[trigger] vals@[k]@ == match end_slots[k] {
                        SpecSlot::Filled(v) => v,
                        SpecSlot::Vacant => spec_default_value(sf[k].vt),
                    },
            decreases fields@.len() - i,
        {
            proof {
                assert(sf[i as int] == fields@[i as int].deep_view());
                assert(end_slots[i as int] == slots@[i as int]@);
            }
            match &slots[i] {
                Slot::Filled(v) => {
                    vals.push(v.duplicate());
                },
                Slot::Vacant => {
                    match &fields[i].kind {
                        FieldKind::Arg(_) => {
                            proof {
                                assert(sf[i as int].kind is Arg && end_slots[i as int] is Vacant);
                                assert(spec_finalize(sf, end_slots) == Err::<
                                    Seq<SpecValue>,
                                    SpecParseError,
                                >(SpecParseError::MissingArgument));
                            }
                            return Err(ParseError::MissingArgument);
                        },
                        FieldKind::Opt(_) => {
                            vals.push(default_value(&fields[i].vt));
                        },
                    }
                },
            }
            i += 1;
        }
        proof {
            assert(spec_finalize(sf, end_slots) == Ok::<Seq<SpecValue>, SpecParseError>(
                vals.deep_view(),
            )) by {
                assert(vals.deep_view() =~= Seq::new(
                    sf.len(),
                    |k: int|
                        match end_slots[k] {
                            SpecSlot::Filled(v) => v,
                            SpecSlot::Vacant => spec_default_value(sf[k].vt),
                        },
                ));
            }
        }
        Ok(vals)
    }
}

} // verus!
