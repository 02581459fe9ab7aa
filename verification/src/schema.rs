//! Command schemas: an ordered list of field declarations.
//!
//! A field is either a named option (recognized by a short key `-x`, a long
//! key `--name`, or, where neither is declared, the derived key
//! `--<field-name>`) or a positional argument (bound to the non-option
//! tokens in declaration order). Schema validation rejects a default value
//! of the wrong kind and option keys that collide across fields.

use vstd::prelude::*;

use crate::value::{scalar_has_kind, scalar_of, Scalar, ScalarValue, SpecScalarValue, ValueType};

verus! {

/// Declared metadata of a named option field.
#[derive(Debug)]
pub struct OptionMeta {
    /// Short key, declared without its leading dash: `q` stands for `-q`.
    pub short: Option<String>,
    /// Long key: absent, declared without a name (the field name is used),
    /// or declared with a name. `Some(None)` stands for a bare declaration.
    pub long: Option<Option<String>>,
    /// Initial value used when the option never occurs.
    pub default: Option<ScalarValue>,
    /// Help text shown by the help renderer.
    pub help: Option<String>,
}

/// Mathematical model of an [`OptionMeta`].
pub struct SpecOptionMeta {
    pub short: Option<Seq<char>>,
    pub long: Option<Option<Seq<char>>>,
    pub default: Option<SpecScalarValue>,
    pub help: Option<Seq<char>>,
}

impl View for OptionMeta {
    type V = SpecOptionMeta;

    open spec fn view(&self) -> SpecOptionMeta {
        SpecOptionMeta {
            short: match &self.short {
                Some(s) => Some(s@),
                None => None,
            },
            long: match &self.long {
                Some(Some(l)) => Some(Some(l@)),
                Some(None) => Some(None),
                None => None,
            },
            default: match &self.default {
                Some(d) => Some(d@),
                None => None,
            },
            help: match &self.help {
                Some(h) => Some(h@),
                None => None,
            },
        }
    }
}

impl DeepView for OptionMeta {
    type V = SpecOptionMeta;

    open spec fn deep_view(&self) -> SpecOptionMeta {
        self.view()
    }
}

/// Declared metadata of a positional argument field.
#[derive(Debug)]
pub struct ArgumentMeta {
    /// Help text shown by the help renderer.
    pub help: Option<String>,
}

/// Mathematical model of an [`ArgumentMeta`].
pub struct SpecArgumentMeta {
    pub help: Option<Seq<char>>,
}

impl View for ArgumentMeta {
    type V = SpecArgumentMeta;

    open spec fn view(&self) -> SpecArgumentMeta {
        SpecArgumentMeta {
            help: match &self.help {
                Some(h) => Some(h@),
                None => None,
            },
        }
    }
}

impl DeepView for ArgumentMeta {
    type V = SpecArgumentMeta;

    open spec fn deep_view(&self) -> SpecArgumentMeta {
        self.view()
    }
}

/// The role of a field: named option or positional argument.
#[derive(Debug)]
pub enum FieldKind {
    Opt(OptionMeta),
    Arg(ArgumentMeta),
}

/// Mathematical model of a [`FieldKind`].
pub enum SpecFieldKind {
    Opt(SpecOptionMeta),
    Arg(SpecArgumentMeta),
}

impl View for FieldKind {
    type V = SpecFieldKind;

    open spec fn view(&self) -> SpecFieldKind {
        match self {
            FieldKind::Opt(m) => SpecFieldKind::Opt(m@),
            FieldKind::Arg(m) => SpecFieldKind::Arg(m@),
        }
    }
}

/// One declared field of a command.
#[derive(Debug)]
pub struct FieldSpec {
    /// The field's name: names the positional slot, derives the fallback
    /// long key, and labels the help lines.
    pub name: String,
    /// Option or argument role, with the role's metadata.
    pub kind: FieldKind,
    /// The type tokens bound to this field are coerced to.
    pub vt: ValueType,
}

/// Mathematical model of a [`FieldSpec`].
pub struct SpecField {
    pub name: Seq<char>,
    pub kind: SpecFieldKind,
    pub vt: ValueType,
}

impl View for FieldSpec {
    type V = SpecField;

    open spec fn view(&self) -> SpecField {
        SpecField { name: self.name@, kind: self.kind@, vt: self.vt }
    }
}

impl DeepView for FieldSpec {
    type V = SpecField;

    open spec fn deep_view(&self) -> SpecField {
        self.view()
    }
}

impl OptionMeta {
    /// An option with nothing declared: no keys, no default, no help.
    pub fn new() -> (r: Self)
        ensures
            r@ == (SpecOptionMeta {
                short: None,
                long: None,
                default: None,
                help: None,
            }),
    {
        Self { short: None, long: None, default: None, help: None }
    }

    /// The full short key, `-` followed by the declared short name.
    pub fn short_key(&self) -> (r: Option<String>)
        ensures
            r.deep_view() == spec_short_key_of(self@),
    {
        match &self.short {
            Some(s) => Some(dash_key(s)),
            None => None,
        }
    }

    /// The full long key, `--` followed by the declared long name, or by
    /// the field name where the long key was declared bare.
    pub fn long_key(&self, name: &String) -> (r: Option<String>)
        ensures
            r.deep_view() == spec_long_key_of(self@, name@),
    {
        match &self.long {
            Some(Some(l)) => Some(double_dash_key(l)),
            Some(None) => Some(double_dash_key(name)),
            None => None,
        }
    }
}

impl ArgumentMeta {
    /// An argument with no help text.
    pub fn new() -> (r: Self)
        ensures
            r@ == (SpecArgumentMeta { help: None }),
    {
        Self { help: None }
    }
}

/// The short key an option answers to, where a short name is declared.
pub open spec fn spec_short_key_of(m: SpecOptionMeta) -> Option<Seq<char>> {
    match m.short {
        Some(s) => Some(seq!['-'] + s),
        None => None,
    }
}

/// The long key an option answers to, where a long key is declared.
pub open spec fn spec_long_key_of(m: SpecOptionMeta, name: Seq<char>) -> Option<Seq<char>> {
    match m.long {
        Some(Some(l)) => Some(seq!['-', '-'] + l),
        Some(None) => Some(seq!['-', '-'] + name),
        None => None,
    }
}

/// The derived key `--<field-name>`, used when no key is declared.
pub open spec fn spec_derived_key(name: Seq<char>) -> Seq<char> {
    seq!['-', '-'] + name
}

/// Every key the field answers to, in the order they are shown: the short
/// key, then the long key; or the derived key alone when neither is
/// declared. An argument field answers to no key.
pub open spec fn spec_keys(f: SpecField) -> Seq<Seq<char>> {
    match f.kind {
        SpecFieldKind::Arg(_) => Seq::empty(),
        SpecFieldKind::Opt(m) => {
            let sk = spec_short_key_of(m);
            let lk = spec_long_key_of(m, f.name);
            if sk is None && lk is None {
                seq![spec_derived_key(f.name)]
            } else {
                (match sk {
                    Some(k) => seq![k],
                    None => Seq::empty(),
                }) + (match lk {
                    Some(k) => seq![k],
                    None => Seq::empty(),
                })
            }
        },
    }
}

/// Whether the token is one of the field's keys.
pub open spec fn token_matches(f: SpecField, tok: Seq<char>) -> bool {
    spec_keys(f).contains(tok)
}

/// Prepends one dash to a name.
fn dash_key(s: &String) -> (r: String)
    ensures
        r@ == seq!['-'] + s@,
{
    let mut k = String::from_str("-");
    proof {
        reveal_strlit("-");
        assert(k@ =~= seq!['-']);
    }
    k.append(s.as_str());
    k
}

/// Prepends two dashes to a name.
fn double_dash_key(s: &String) -> (r: String)
    ensures
        r@ == seq!['-', '-'] + s@,
{
    let mut k = String::from_str("--");
    proof {
        reveal_strlit("--");
        assert(k@ =~= seq!['-', '-']);
    }
    k.append(s.as_str());
    k
}

impl FieldSpec {
    /// The field's keys as strings, in the order [`spec_keys`] gives them.
    pub fn key_strings(&self) -> (r: Vec<String>)
        ensures
            r.deep_view() == spec_keys(self@),
    {
        match &self.kind {
            FieldKind::Arg(_) => {
                let r: Vec<String> = Vec::new();
                assert(r.deep_view() =~= spec_keys(self@));
                r
            },
            FieldKind::Opt(m) => {
                let mut r: Vec<String> = Vec::new();
                let sk = m.short_key();
                let lk = m.long_key(&self.name);
                let none_declared = sk.is_none() && lk.is_none();
                match sk {
                    Some(k) => r.push(k),
                    None => (),
                }
                match lk {
                    Some(k) => r.push(k),
                    None => (),
                }
                if none_declared {
                    r.push(double_dash_key(&self.name));
                }
                assert(r.deep_view() =~= spec_keys(self@));
                r
            },
        }
    }

    /// Whether the token is one of this field's keys.
    pub fn matches_token(&self, tok: &String) -> (r: bool)
        ensures
            r == token_matches(self@, tok@),
    {
        let keys = self.key_strings();
        let mut i: usize = 0;
        while i < keys.len()
            invariant
                i <= keys.len(),
                keys.deep_view() == spec_keys(self@),
                forall|k: int| 0 <= k < i ==> spec_keys(self@)[k] != tok@,
            decreases keys.len() - i,
        {
            if keys[i] == *tok {
                assert(spec_keys(self@)[i as int] == tok@);
                return true;
            }
            i += 1;
        }
        assert(forall|k: int| 0 <= k < spec_keys(self@).len() ==> spec_keys(self@)[k] != tok@);
        false
    }
}

/// The first option field, in declaration order from position `i`, one of
/// whose keys is the token.
pub open spec fn spec_find_opt_from(fields: Seq<SpecField>, tok: Seq<char>, i: nat) -> Option<int>
    decreases fields.len() - i,
{
    if i >= fields.len() {
        None
    } else if token_matches(fields[i as int], tok) {
        Some(i as int)
    } else {
        spec_find_opt_from(fields, tok, i + 1)
    }
}

/// The first option field, in declaration order, one of whose keys is the
/// token; `None` where the token is no declared key.
pub open spec fn spec_find_opt(fields: Seq<SpecField>, tok: Seq<char>) -> Option<int> {
    spec_find_opt_from(fields, tok, 0)
}

/// A found option index lies in range and its field matches the token.
pub proof fn lemma_find_opt_range(fields: Seq<SpecField>, tok: Seq<char>, i: nat)
    ensures
        spec_find_opt_from(fields, tok, i) matches Some(j) ==> i <= j < fields.len()
            && token_matches(fields[j], tok),
    decreases fields.len() - i,
{
    if i < fields.len() && !token_matches(fields[i as int], tok) {
        lemma_find_opt_range(fields, tok, i + 1);
    }
}

/// Finds the first field one of whose keys is the token.
pub fn find_opt(fields: &Vec<FieldSpec>, tok: &String) -> (r: Option<usize>)
    ensures
        match r {
            Some(i) => i < fields.len() && spec_find_opt(fields.deep_view(), tok@) == Some(i as int),
            None => spec_find_opt(fields.deep_view(), tok@) is None,
        },
{
    let mut i: usize = 0;
    while i < fields.len()
        invariant
            i <= fields.len(),
            spec_find_opt(fields.deep_view(), tok@) == spec_find_opt_from(
                fields.deep_view(),
                tok@,
                i as nat,
            ),
        decreases fields.len() - i,
    {
        if fields[i].matches_token(tok) {
            return Some(i);
        }
        i += 1;
    }
    None
}

/// The positions, in declaration order, of the argument fields.
pub open spec fn spec_arg_indices(fields: Seq<SpecField>) -> Seq<int>
    decreases fields.len(),
{
    if fields.len() == 0 {
        Seq::empty()
    } else {
        let prefix = spec_arg_indices(fields.drop_last());
        if fields.last().kind is Arg {
            prefix.push(fields.len() - 1)
        } else {
            prefix
        }
    }
}

/// Each entry of [`spec_arg_indices`] points at an argument field, and the
/// entries grow strictly, so argument fields are visited in declaration
/// order.
pub proof fn lemma_arg_indices_props(fields: Seq<SpecField>)
    ensures
        forall|k: int|
            0 <= k < spec_arg_indices(fields).len() ==> {
                let idx = #[trigger] spec_arg_indices(fields)[k];
                0 <= idx < fields.len() && fields[idx].kind is Arg
            },
        forall|k: int, l: int|
            0 <= k < l < spec_arg_indices(fields).len() ==> #[trigger] spec_arg_indices(fields)[k]
                < #[trigger] spec_arg_indices(fields)[l],
    decreases fields.len(),
{
    if fields.len() > 0 {
        lemma_arg_indices_props(fields.drop_last());
        assert(forall|k: int|
            0 <= k < spec_arg_indices(fields.drop_last()).len() ==> #[trigger] spec_arg_indices(
                fields.drop_last(),
            )[k] < fields.len() - 1) by {
            lemma_arg_indices_bound(fields.drop_last());
        }
        assert(forall|idx: int|
            0 <= idx < fields.len() - 1 ==> fields.drop_last()[idx] == #[trigger] fields[idx]);
    }
}

/// Every entry of [`spec_arg_indices`] lies below the field count.
pub proof fn lemma_arg_indices_bound(fields: Seq<SpecField>)
    ensures
        forall|k: int|
            0 <= k < spec_arg_indices(fields).len() ==> #[trigger] spec_arg_indices(fields)[k]
                < fields.len(),
    decreases fields.len(),
{
    if fields.len() > 0 {
        lemma_arg_indices_bound(fields.drop_last());
        let prefix = spec_arg_indices(fields.drop_last());
        if fields.last().kind is Arg {
            assert(spec_arg_indices(fields) == prefix.push(fields.len() - 1));
            assert(forall|k: int|
                0 <= k < prefix.len() ==> #[trigger] spec_arg_indices(fields)[k] == prefix[k]);
        } else {
            assert(spec_arg_indices(fields) == prefix);
        }
    }
}

/// Collects the positions of the argument fields, in declaration order.
pub fn arg_indices(fields: &Vec<FieldSpec>) -> (r: Vec<usize>)
    ensures
        r.len() == spec_arg_indices(fields.deep_view()).len(),
        forall|k: int|
            0 <= k < r.len() ==> #[trigger] r[k] == spec_arg_indices(fields.deep_view())[k],
{
    let ghost all = fields.deep_view();
    let mut r: Vec<usize> = Vec::new();
    let mut i: usize = 0;
    while i < fields.len()
        invariant
            i <= fields.len(),
            all == fields.deep_view(),
            r.len() == spec_arg_indices(all.take(i as int)).len(),
            forall|k: int|
                0 <= k < r.len() ==> #[trigger] r[k] == spec_arg_indices(all.take(i as int))[k],
        decreases fields.len() - i,
    {
        let ghost pre = all.take(i as int);
        let ghost post = all.take(i + 1);
        proof {
            assert(post.drop_last() =~= pre);
            assert(post.last() == all[i as int]);
        }
        match &fields[i].kind {
            FieldKind::Arg(_) => {
                r.push(i);
            },
            FieldKind::Opt(_) => (),
        }
        i += 1;
    }
    proof {
        assert(all.take(fields.len() as int) =~= all);
    }
    r
}

/// A field's declared default is lawful: only an option field may carry
/// one, its type must be a single scalar, and the default must be of that
/// scalar kind.
pub open spec fn field_wf(f: SpecField) -> bool {
    match f.kind {
        SpecFieldKind::Opt(m) => match m.default {
            Some(d) => f.vt is Single && scalar_has_kind(d, scalar_of(f.vt)),
            None => true,
        },
        SpecFieldKind::Arg(_) => true,
    }
}

/// No key of one field is a key of the other.
pub open spec fn keys_disjoint(f1: SpecField, f2: SpecField) -> bool {
    forall|k: Seq<char>| spec_keys(f1).contains(k) ==> !spec_keys(f2).contains(k)
}

/// A lawful schema: every default is lawful and no two fields share a key.
pub open spec fn schema_wf(fields: Seq<SpecField>) -> bool {
    &&& forall|i: int| 0 <= i < fields.len() ==> field_wf(#[trigger] fields[i])
    &&& forall|i: int, j: int|
        0 <= i < j < fields.len() ==> keys_disjoint(#[trigger] fields[i], #[trigger] fields[j])
}

/// A fault found while validating a schema.
#[derive(Debug)]
pub enum SchemaError {
    /// Two fields answer to this same key.
    DuplicateKey(String),
    /// The field of this name declares a default of the wrong kind.
    InvalidDefault(String),
}

/// Mathematical model of a [`SchemaError`].
pub enum SpecSchemaError {
    DuplicateKey(Seq<char>),
    InvalidDefault(Seq<char>),
}

impl View for SchemaError {
    type V = SpecSchemaError;

    open spec fn view(&self) -> SpecSchemaError {
        match self {
            SchemaError::DuplicateKey(k) => SpecSchemaError::DuplicateKey(k@),
            SchemaError::InvalidDefault(n) => SpecSchemaError::InvalidDefault(n@),
        }
    }
}

/// Whether the field's declared default is lawful.
fn field_ok(f: &FieldSpec) -> (r: bool)
    ensures
        r == field_wf(f@),
{
    match &f.kind {
        FieldKind::Opt(m) => match &m.default {
            Some(d) => match (&f.vt, d) {
                (ValueType::Single(Scalar::Bool), ScalarValue::Bool(_)) => true,
                (ValueType::Single(Scalar::Int), ScalarValue::Int(_)) => true,
                (ValueType::Single(Scalar::Uint), ScalarValue::Uint(_)) => true,
                (ValueType::Single(Scalar::Str), ScalarValue::Str(_)) => true,
                _ => false,
            },
            None => true,
        },
        FieldKind::Arg(_) => true,
    }
}

/// The first key the two lists share, if any.
fn shared_key(a: &Vec<String>, b: &Vec<String>) -> (r: Option<String>)
    ensures
        match r {
            Some(k) => a.deep_view().contains(k@) && b.deep_view().contains(k@),
            None => forall|k: Seq<char>| a.deep_view().contains(k) ==> !b.deep_view().contains(k),
        },
{
    let mut i: usize = 0;
    while i < a.len()
        invariant
            i <= a.len(),
            forall|p: int, q: int|
                0 <= p < i && 0 <= q < b.len() ==> #[trigger] a.deep_view()[p]
                    != #[trigger] b.deep_view()[q],
        decreases a.len() - i,
    {
        let mut j: usize = 0;
        while j < b.len()
            invariant
                i < a.len(),
                j <= b.len(),
                forall|q: int|
                    0 <= q < j ==> a.deep_view()[i as int] != #[trigger] b.deep_view()[q],
            decreases b.len() - j,
        {
            if a[i] == b[j] {
                assert(a.deep_view().contains(a.deep_view()[i as int]));
                assert(b.deep_view().contains(b.deep_view()[j as int]));
                return Some(a[i].clone());
            }
            j += 1;
        }
        i += 1;
    }
    assert forall|k: Seq<char>| a.deep_view().contains(k) implies !b.deep_view().contains(k) by {
        let p = choose|p: int| 0 <= p < a.deep_view().len() && a.deep_view()[p] == k;
        assert(forall|q: int| 0 <= q < b.len() ==> #[trigger] b.deep_view()[q] != k);
    }
    None
}

/// An ordered command schema, validated at construction.
#[derive(Debug)]
pub struct Schema {
    pub fields: Vec<FieldSpec>,
}

impl View for Schema {
    type V = Seq<SpecField>;

    open spec fn view(&self) -> Seq<SpecField> {
        self.fields.deep_view()
    }
}

impl Schema {
    /// Validates the declared fields and builds the schema.
    ///
    /// Succeeds exactly on lawful schemas (see [`schema_wf`]): every
    /// declared default is a single scalar of the field's kind, and no two
    /// fields share a key. On failure the error carries a witness — a key
    /// two fields answer to, or the name of a field with an unlawful
    /// default; which fault is reported when several exist is not
    /// specified.
    pub fn new(fields: Vec<FieldSpec>) -> (r: Result<Schema, SchemaError>)
        ensures
            r is Ok <==> schema_wf(fields.deep_view()),
            match r {
                Ok(s) => s@ == fields.deep_view(),
                Err(e) => match e@ {
                    SpecSchemaError::InvalidDefault(n) => exists|i: int|
                        0 <= i < fields.deep_view().len() && !field_wf(
                            #[trigger] fields.deep_view()[i],
                        ) && fields.deep_view()[i].name == n,
                    SpecSchemaError::DuplicateKey(k) => exists|i: int, j: int|
                        0 <= i < j < fields.deep_view().len() && spec_keys(
                            #[trigger] fields.deep_view()[i],
                        ).contains(k) && spec_keys(#[trigger] fields.deep_view()[j]).contains(k),
                },
            },
    {
        let ghost all = fields.deep_view();
        let mut i: usize = 0;
        while i < fields.len()
            invariant
                i <= fields.len(),
                all == fields.deep_view(),
                forall|p: int| 0 <= p < i ==> field_wf(#[trigger] all[p]),
            decreases fields.len() - i,
        {
            if !field_ok(&fields[i]) {
                proof {
                    assert(all[i as int] == fields[i as int].deep_view());
                    assert(!schema_wf(all));
                }
                return Err(SchemaError::InvalidDefault(fields[i].name.clone()));
            }
            proof {
                assert(all[i as int] == fields[i as int].deep_view());
            }
            i += 1;
        }
        let mut j: usize = 1;
        while j < fields.len()
            invariant
                1 <= j,
                all == fields.deep_view(),
                forall|p: int, q: int|
                    0 <= p < q < j && q < all.len() ==> keys_disjoint(
                        #[trigger] all[p],
                        #[trigger] all[q],
                    ),
            decreases fields.len() - j,
        {
            let keys_j = fields[j].key_strings();
            proof {
                assert(all[j as int] == fields[j as int].deep_view());
            }
            let mut p: usize = 0;
            while p < j
                invariant
                    p <= j,
                    j < fields.len(),
                    all == fields.deep_view(),
                    keys_j.deep_view() == spec_keys(all[j as int]),
                    forall|q: int| 0 <= q < p ==> keys_disjoint(#[trigger] all[q], all[j as int]),
                decreases j - p,
            {
                let keys_p = fields[p].key_strings();
                proof {
                    assert(all[p as int] == fields[p as int].deep_view());
                }
                match shared_key(&keys_p, &keys_j) {
                    Some(k) => {
                        proof {
                            assert(spec_keys(all[p as int]).contains(k@));
                            assert(spec_keys(all[j as int]).contains(k@));
                            assert(!keys_disjoint(all[p as int], all[j as int]));
                            assert(!schema_wf(all));
                        }
                        return Err(SchemaError::DuplicateKey(k));
                    },
                    None => (),
                }
                p += 1;
            }
            j += 1;
        }
        Ok(Schema { fields })
    }

    /// How many argument fields the schema declares.
    pub fn num_args(&self) -> (r: usize)
        ensures
            r == spec_arg_indices(self@).len(),
    {
        arg_indices(&self.fields).len()
    }
}

} // verus!
