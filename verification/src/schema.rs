//! Schemas: what a schema declares, what a declaration resolves to
//! (collection name, unique fields, field validators), and validation.
use vstd::prelude::*;
use vstd::string::StringExecFns;
use crate::error::MongooseError;
use crate::text::{
    debug_list, debug_string_list, snake_case_plural, split_commas, split_on_commas,
    to_snake_case_plural, trim, trim_string, decimal, usize_to_string,
};

verus! {

broadcast use vstd::std_specs::vec::group_vec_axioms, vstd::seq::group_seq_axioms;

/// What every schema type provides.
pub trait MongooseSchema: Sized + Send + Sync {
    /// The MongoDB collection name for this schema.
    fn collection_name() -> &'static str;

    /// Whether `created_at` / `updated_at` are managed automatically; by
    /// default they are not.
    fn timestamps() -> (b: bool)
        default_ensures
            !b,
    {
        false
    }

    /// Fields that get a unique index; by default none.
    fn unique_fields() -> (fields: &'static [&'static str])
        default_ensures
            fields@.len() == 0,
    {
        &[]
    }

    /// Field-level and custom validation, run before a document is written; by
    /// default every document passes.
    fn validate(&self) -> (r: Result<(), MongooseError>)
        default_ensures
            r is Ok,
    {
        Ok(())
    }
}

/// Reads a string field that may be absent.
pub trait AsStr {
    fn as_str_opt(&self) -> Option<&str>;
}

impl AsStr for String {
    fn as_str_opt(&self) -> (r: Option<&str>)
        ensures
            r matches Some(s) && s@ == self@,
    {
        Some(self.as_str())
    }
}

impl AsStr for Option<String> {
    fn as_str_opt(&self) -> (r: Option<&str>)
        ensures
            r is Some <==> self is Some,
            r matches Some(s) ==> s@ == self->0@,
    {
        match self {
            Some(s) => Some(s.as_str()),
            None => None,
        }
    }
}

impl AsStr for str {
    fn as_str_opt(&self) -> (r: Option<&str>)
        ensures
            r matches Some(s) && s@ == self@,
    {
        Some(self)
    }
}

/// The field options a schema declares for one field.
pub struct FieldOpts {
    /// The field's name in the type, if it has one.
    pub ident: Option<String>,
    pub required: bool,
    pub default: Option<String>,
    /// Minimum length in characters.
    pub min_length: Option<usize>,
    /// Maximum length in characters.
    pub max_length: Option<usize>,
    /// Comma-separated list of allowed values.
    pub enum_values: Option<String>,
    /// The field gets a unique index.
    pub unique: bool,
    /// The field's name in MongoDB, when it differs from `ident`.
    pub rename: Option<String>,
}

/// The options a schema declares for the whole type.
pub struct SchemaOpts {
    /// The type's name.
    pub ident: String,
    pub fields: Vec<FieldOpts>,
    /// The collection name, when it is not derived from the type's name.
    pub collection: Option<String>,
    pub timestamps: bool,
}

/// The checks on one string field.
pub struct FieldValidator {
    /// The field's name, used in error messages.
    pub field: String,
    pub min_length: Option<usize>,
    pub max_length: Option<usize>,
    /// The allowed values, if the field is restricted to a list.
    pub allowed: Option<Vec<String>>,
}

/// What a schema declaration resolves to.
pub struct SchemaInfo {
    pub collection_name: String,
    pub timestamps: bool,
    /// The MongoDB names of the fields that get a unique index, in order.
    pub unique_fields: Vec<String>,
    /// The checks, one per field that has any, in field order.
    pub validators: Vec<FieldValidator>,
}

/// The value of a `FieldValidator`.
pub struct ValidatorSpec {
    pub field: Seq<char>,
    pub min_length: Option<usize>,
    pub max_length: Option<usize>,
    pub allowed: Option<Seq<Seq<char>>>,
}

pub open spec fn strings_view(v: Seq<String>) -> Seq<Seq<char>> {
    v.map_values(|s: String| s@)
}

pub open spec fn opt_string_view(o: Option<String>) -> Option<Seq<char>> {
    match o {
        Some(s) => Some(s@),
        None => None,
    }
}

impl View for FieldValidator {
    type V = ValidatorSpec;

    open spec fn view(&self) -> ValidatorSpec {
        ValidatorSpec {
            field: self.field@,
            min_length: self.min_length,
            max_length: self.max_length,
            allowed: match self.allowed {
                Some(a) => Some(strings_view(a@)),
                None => None,
            },
        }
    }
}

/// "Field `f` must be at least n characters".
pub open spec fn too_short_message(field: Seq<char>, n: usize) -> Seq<char> {
    "Field `"@ + field + "` must be at least "@ + decimal(n as nat) + " characters"@
}

/// "Field `f` must be at most n characters".
pub open spec fn too_long_message(field: Seq<char>, n: usize) -> Seq<char> {
    "Field `"@ + field + "` must be at most "@ + decimal(n as nat) + " characters"@
}

/// "Field `f` must be one of [...]".
pub open spec fn not_allowed_message(field: Seq<char>, allowed: Seq<Seq<char>>) -> Seq<char> {
    "Field `"@ + field + "` must be one of "@ + debug_string_list(allowed)
}

/// The message of the first check that `value` fails: the minimum length,
/// then the maximum length, then the list of allowed values. An absent value
/// passes every check.
pub open spec fn validation_error(v: ValidatorSpec, value: Option<Seq<char>>) -> Option<Seq<char>> {
    match value {
        None => None,
        Some(s) => if v.min_length is Some && s.len() < v.min_length->0 {
            Some(too_short_message(v.field, v.min_length->0))
        } else if v.max_length is Some && s.len() > v.max_length->0 {
            Some(too_long_message(v.field, v.max_length->0))
        } else if v.allowed is Some && !v.allowed->0.contains(s) {
            Some(not_allowed_message(v.field, v.allowed->0))
        } else {
            None
        },
    }
}

/// The message of the first validator, in order, that its value fails; the
/// value at a position past the end of `values` counts as absent.
pub open spec fn first_validation_error(
    vs: Seq<ValidatorSpec>,
    values: Seq<Option<Seq<char>>>,
) -> Option<Seq<char>>
    decreases vs.len(),
{
    if vs.len() == 0 {
        None
    } else {
        let value = if values.len() > 0 {
            values[0]
        } else {
            None
        };
        match validation_error(vs[0], value) {
            Some(m) => Some(m),
            None => first_validation_error(
                vs.drop_first(),
                if values.len() > 0 {
                    values.drop_first()
                } else {
                    values
                },
            ),
        }
    }
}

pub open spec fn opt_str_view(o: Option<&str>) -> Option<Seq<char>> {
    match o {
        Some(s) => Some(s@),
        None => None,
    }
}

/// The result that a validation message stands for.
pub open spec fn validation_result(r: Result<(), MongooseError>, e: Option<Seq<char>>) -> bool {
    match e {
        None => r is Ok,
        Some(m) => r matches Err(MongooseError::Validation(msg)) && msg@ == m,
    }
}

fn concat_message(a: &str, b: &String, c: &str, d: String, e: &str) -> (r: String)
    ensures
        r@ == a@ + b@ + c@ + d@ + e@,
{
    let mut r = String::from_str(a);
    r.append(b.as_str());
    r.append(c);
    r.append(d.as_str());
    r.append(e);
    r
}

fn contains_string(items: &Vec<String>, s: &String) -> (b: bool)
    ensures
        b == strings_view(items@).contains(s@),
{
    let mut i: usize = 0;
    while i < items.len()
        invariant
            i <= items@.len(),
            forall|j: int| 0 <= j < i ==> #[trigger] items@[j]@ != s@,
        decreases items@.len() - i,
    {
        if items[i] == *s {
            proof {
                assert(strings_view(items@)[i as int] == s@);
            }
            return true;
        }
        i += 1;
    }
    proof {
        if strings_view(items@).contains(s@) {
            let j = choose|j: int| 0 <= j < strings_view(items@).len() && strings_view(items@)[j] == s@;
            assert(items@[j]@ == s@);
        }
    }
    false
}

impl FieldValidator {
    /// Check one value: the minimum length, then the maximum length, then the
    /// allowed values; lengths count characters. An absent value passes.
    pub fn check(&self, value: Option<&str>) -> (r: Result<(), MongooseError>)
        ensures
            validation_result(r, validation_error(self@, opt_str_view(value))),
    {
        match value {
            None => Ok(()),
            Some(s) => {
                let sv = String::from_str(s);
                let len = s.unicode_len();
                if let Some(n) = self.min_length {
                    if len < n {
                        let m = concat_message(
                            "Field `",
                            &self.field,
                            "` must be at least ",
                            usize_to_string(n),
                            " characters",
                        );
                        return Err(MongooseError::Validation(m));
                    }
                }
                if let Some(n) = self.max_length {
                    if len > n {
                        let m = concat_message(
                            "Field `",
                            &self.field,
                            "` must be at most ",
                            usize_to_string(n),
                            " characters",
                        );
                        return Err(MongooseError::Validation(m));
                    }
                }
                if let Some(allowed) = &self.allowed {
                    if !contains_string(allowed, &sv) {
                        let m = concat_message(
                            "Field `",
                            &self.field,
                            "` must be one of ",
                            debug_list(allowed),
                            "",
                        );
                        proof {
                            reveal_strlit("");
                            assert(m@ =~= not_allowed_message(self.field@, strings_view(allowed@)));
                        }
                        return Err(MongooseError::Validation(m));
                    }
                }
                Ok(())
            },
        }
    }
}

/// Run the validators in order against the values at the same positions and
/// stop at the first failure.
pub fn validate_fields(validators: &Vec<FieldValidator>, values: &Vec<Option<&str>>) -> (r: Result<
    (),
    MongooseError,
>)
    ensures
        validation_result(
            r,
            first_validation_error(
                validators@.map_values(|v: FieldValidator| v@),
                values@.map_values(|o: Option<&str>| opt_str_view(o)),
            ),
        ),
{
    let ghost vs = validators@.map_values(|v: FieldValidator| v@);
    let ghost xs = values@.map_values(|o: Option<&str>| opt_str_view(o));
    let mut i: usize = 0;
    proof {
        assert(vs.subrange(0, vs.len() as int) =~= vs);
        assert(xs.subrange(0, xs.len() as int) =~= xs);
    }
    while i < validators.len()
        invariant
            i <= validators@.len(),
            vs == validators@.map_values(|v: FieldValidator| v@),
            xs == values@.map_values(|o: Option<&str>| opt_str_view(o)),
            first_validation_error(vs, xs) == first_validation_error(
                vs.subrange(i as int, vs.len() as int),
                if i <= xs.len() {
                    xs.subrange(i as int, xs.len() as int)
                } else {
                    Seq::empty()
                },
            ),
        decreases validators@.len() - i,
    {
        let value = if i < values.len() {
            values[i]
        } else {
            None
        };
        let ghost rest_v = vs.subrange(i as int, vs.len() as int);
        let ghost rest_x = if i <= xs.len() {
            xs.subrange(i as int, xs.len() as int)
        } else {
            Seq::empty()
        };
        proof {
            assert(rest_v[0] == validators@[i as int]@);
            if i < xs.len() {
                assert(rest_x[0] == opt_str_view(value));
            }
            assert(rest_v.drop_first() =~= vs.subrange(i + 1, vs.len() as int));
            if i < xs.len() {
                assert(rest_x.drop_first() =~= xs.subrange(i + 1, xs.len() as int));
            }
        }
        let r = validators[i].check(value);
        if r.is_err() {
            return r;
        }
        proof {
            let next_x = if i + 1 <= xs.len() {
                xs.subrange(i + 1, xs.len() as int)
            } else {
                Seq::empty()
            };
            assert(rest_v.len() > 0);
            assert(rest_x.len() > 0 <==> i < xs.len());
            let v0 = if rest_x.len() > 0 {
                rest_x[0]
            } else {
                None
            };
            assert(v0 == opt_str_view(value));
            assert(validation_error(rest_v[0], v0) is None);
            if rest_x.len() == 0 {
                assert(next_x =~= rest_x);
            }
            assert(first_validation_error(rest_v, rest_x) == first_validation_error(
                vs.subrange(i + 1, vs.len() as int),
                next_x,
            ));
        }
        i += 1;
    }
    Ok(())
}

/// The checks a field declares, if it declares any and has a name: its
/// length bounds, and its allowed values split at commas and trimmed.
pub open spec fn validator_for(f: FieldOpts) -> Option<ValidatorSpec> {
    if f.ident is None || (f.min_length is None && f.max_length is None && f.enum_values is None) {
        None
    } else {
        Some(
            ValidatorSpec {
                field: f.ident->0@,
                min_length: f.min_length,
                max_length: f.max_length,
                allowed: match f.enum_values {
                    Some(e) => Some(split_commas(e@).map_values(|p: Seq<char>| trim(p))),
                    None => None,
                },
            },
        )
    }
}

/// The validators of the fields that declare checks, in field order.
pub open spec fn validators_for(fields: Seq<FieldOpts>) -> Seq<ValidatorSpec>
    decreases fields.len(),
{
    if fields.len() == 0 {
        Seq::empty()
    } else {
        let rest = validators_for(fields.drop_last());
        match validator_for(fields.last()) {
            Some(v) => rest.push(v),
            None => rest,
        }
    }
}

/// The MongoDB name of a field: its rename if it has one, else its name.
pub open spec fn mongo_name(f: FieldOpts) -> Option<Seq<char>> {
    match f.rename {
        Some(r) => Some(r@),
        None => opt_string_view(f.ident),
    }
}

/// The MongoDB names of the unique fields, in field order.
pub open spec fn unique_names(fields: Seq<FieldOpts>) -> Seq<Seq<char>>
    decreases fields.len(),
{
    if fields.len() == 0 {
        Seq::empty()
    } else {
        let rest = unique_names(fields.drop_last());
        let f = fields.last();
        if f.unique && mongo_name(f) is Some {
            rest.push(mongo_name(f)->0)
        } else {
            rest
        }
    }
}

/// A present value fails the first bound it breaks, with that bound's
/// message, and passes exactly when it is within every declared bound and,
/// when values are listed, one of them; an absent value always passes.
pub proof fn law_check_enforces_every_bound(v: ValidatorSpec, s: Seq<char>)
    ensures
        v.min_length is Some && s.len() < v.min_length->0 ==> validation_error(v, Some(s)) == Some(
            too_short_message(v.field, v.min_length->0),
        ),
        !(v.min_length is Some && s.len() < v.min_length->0) && v.max_length is Some && s.len()
            > v.max_length->0 ==> validation_error(v, Some(s)) == Some(
            too_long_message(v.field, v.max_length->0),
        ),
        validation_error(v, Some(s)) is None <==> ((v.min_length is Some ==> s.len()
            >= v.min_length->0) && (v.max_length is Some ==> s.len() <= v.max_length->0) && (
        v.allowed is Some ==> v.allowed->0.contains(s))),
        (v.min_length is Some ==> s.len() >= v.min_length->0) && (v.max_length is Some ==> s.len()
            <= v.max_length->0) && v.allowed is Some && !v.allowed->0.contains(s)
            ==> validation_error(v, Some(s)) == Some(not_allowed_message(v.field, v.allowed->0)),
        validation_error(v, None) is None,
{
}

/// A named field that declares any of the length bounds or a list of values
/// gets a validator for that field carrying exactly its bounds and a list
/// exactly when it declares one; a field with no name or no such option
/// gets none.
pub proof fn law_declared_checks_get_a_validator(f: FieldOpts)
    ensures
        (f.ident is Some && (f.min_length is Some || f.max_length is Some || f.enum_values is Some))
            <==> validator_for(f) is Some,
        validator_for(f) matches Some(v) ==> v.field == f.ident->0@ && v.min_length == f.min_length
            && v.max_length == f.max_length && (v.allowed is Some <==> f.enum_values is Some),
{
}

/// A value of a named field that breaks a declared length bound is refused
/// with that bound's message by the field's validator.
pub proof fn law_declared_bounds_are_enforced(f: FieldOpts, s: Seq<char>)
    requires
        f.ident is Some,
    ensures
        f.min_length is Some && s.len() < f.min_length->0 ==> (validator_for(f) is Some
            && validation_error(validator_for(f)->0, Some(s)) == Some(
            too_short_message(f.ident->0@, f.min_length->0),
        )),
        f.max_length is Some && s.len() > f.max_length->0 && !(f.min_length is Some && s.len()
            < f.min_length->0) ==> (validator_for(f) is Some && validation_error(
            validator_for(f)->0,
            Some(s),
        ) == Some(too_long_message(f.ident->0@, f.max_length->0))),
{
}

/// Whether a field gets a unique index: it is marked unique and has a
/// MongoDB name.
pub open spec fn declares_unique(f: FieldOpts) -> bool {
    f.unique && mongo_name(f) is Some
}

/// The unique fields of a declaration are exactly the MongoDB names of the
/// fields marked unique (that have a name), in field order, whatever other
/// options those fields declare.
pub proof fn law_unique_fields_are_the_marked_ones(fields: Seq<FieldOpts>)
    ensures
        unique_names(fields) == fields.filter(|f: FieldOpts| declares_unique(f)).map_values(
            |f: FieldOpts| mongo_name(f)->0,
        ),
        forall|i: int|
            0 <= i < fields.len() && declares_unique(#[trigger] fields[i]) ==> unique_names(
                fields,
            ).contains(mongo_name(fields[i])->0),
    decreases fields.len(),
{
    let pred = |f: FieldOpts| declares_unique(f);
    let name = |f: FieldOpts| mongo_name(f)->0;
    if fields.len() == 0 {
        reveal(Seq::filter);
        assert(fields.filter(pred).map_values(name) =~= Seq::<Seq<char>>::empty());
    } else {
        let p = fields.drop_last();
        let f = fields.last();
        law_unique_fields_are_the_marked_ones(p);
        assert(p.push(f) =~= fields);
        p.lemma_filter_push(f, pred);
        if declares_unique(f) {
            assert(p.filter(pred).push(f).map_values(name) =~= p.filter(pred).map_values(name).push(
                name(f),
            ));
        }
        assert forall|i: int|
            0 <= i < fields.len() && declares_unique(#[trigger] fields[i]) implies unique_names(
            fields,
        ).contains(mongo_name(fields[i])->0) by {
            if i < p.len() {
                assert(p[i] == fields[i]);
                let j = choose|j: int|
                    0 <= j < unique_names(p).len() && unique_names(p)[j] == mongo_name(p[i])->0;
                assert(unique_names(fields)[j] == unique_names(p)[j]);
            } else {
                assert(unique_names(fields).last() == mongo_name(f)->0);
            }
        }
    }
}

/// Whether a field gets a validator.
pub open spec fn declares_checks(f: FieldOpts) -> bool {
    validator_for(f) is Some
}

/// The validators of a declaration are exactly those of the fields that
/// declare checks, one per such field, in field order.
pub proof fn law_validators_follow_the_fields(fields: Seq<FieldOpts>)
    ensures
        validators_for(fields) == fields.filter(|f: FieldOpts| declares_checks(f)).map_values(
            |f: FieldOpts| validator_for(f)->0,
        ),
    decreases fields.len(),
{
    let pred = |f: FieldOpts| declares_checks(f);
    let val = |f: FieldOpts| validator_for(f)->0;
    if fields.len() == 0 {
        reveal(Seq::filter);
        assert(fields.filter(pred).map_values(val) =~= Seq::<ValidatorSpec>::empty());
    } else {
        let p = fields.drop_last();
        let f = fields.last();
        law_validators_follow_the_fields(p);
        assert(p.push(f) =~= fields);
        p.lemma_filter_push(f, pred);
        if declares_checks(f) {
            assert(p.filter(pred).push(f).map_values(val) =~= p.filter(pred).map_values(val).push(
                val(f),
            ));
        }
    }
}

/// The collection a schema is stored in: the declared name, or the snake_case
/// plural of the type's name.
pub open spec fn collection_for(opts: SchemaOpts) -> Seq<char> {
    match opts.collection {
        Some(c) => c@,
        None => snake_case_plural(opts.ident@),
    }
}

fn clone_opt(o: &Option<String>) -> (r: Option<String>)
    ensures
        opt_string_view(r) == opt_string_view(*o),
{
    match o {
        Some(s) => Some(s.clone()),
        None => None,
    }
}

/// The allowed values of a comma-separated list, each trimmed.
pub fn parse_enum_values(list: &str) -> (values: Vec<String>)
    ensures
        strings_view(values@) == split_commas(list@).map_values(|p: Seq<char>| trim(p)),
{
    let parts = split_on_commas(list);
    let mut values: Vec<String> = Vec::new();
    let mut i: usize = 0;
    while i < parts.len()
        invariant
            i <= parts@.len(),
            values@.len() == i,
            forall|j: int| 0 <= j < i ==> #[trigger] values@[j]@ == trim(parts@[j]@),
        decreases parts@.len() - i,
    {
        let t = trim_string(parts[i].as_str());
        values.push(t);
        i += 1;
    }
    proof {
        assert(strings_view(values@) =~= strings_view(parts@).map_values(|p: Seq<char>| trim(p)));
    }
    values
}

/// The checks one field declares, if any.
pub fn build_field_validation(f: &FieldOpts) -> (v: Option<FieldValidator>)
    ensures
        match v {
            Some(x) => validator_for(*f) == Some(x@),
            None => validator_for(*f) is None,
        },
{
    match &f.ident {
        None => None,
        Some(ident) => {
            if f.min_length.is_none() && f.max_length.is_none() && f.enum_values.is_none() {
                None
            } else {
                let allowed = match &f.enum_values {
                    Some(e) => Some(parse_enum_values(e.as_str())),
                    None => None,
                };
                Some(
                    FieldValidator {
                        field: ident.clone(),
                        min_length: f.min_length,
                        max_length: f.max_length,
                        allowed,
                    },
                )
            }
        },
    }
}

/// Resolve a schema declaration: the collection name (declared, or the
/// snake_case plural of the type name), whether timestamps are managed, the
/// MongoDB names of the unique fields, and the field validators.
pub fn derive_schema(opts: &SchemaOpts) -> (info: SchemaInfo)
    ensures
        info.collection_name@ == collection_for(*opts),
        info.timestamps == opts.timestamps,
        strings_view(info.unique_fields@) == unique_names(opts.fields@),
        info.validators@.map_values(|v: FieldValidator| v@) == validators_for(opts.fields@),
{
    let collection_name = match &opts.collection {
        Some(c) => c.clone(),
        None => to_snake_case_plural(opts.ident.as_str()),
    };
    let mut unique_fields: Vec<String> = Vec::new();
    let mut validators: Vec<FieldValidator> = Vec::new();
    let mut i: usize = 0;
    while i < opts.fields.len()
        invariant
            i <= opts.fields@.len(),
            strings_view(unique_fields@) == unique_names(opts.fields@.subrange(0, i as int)),
            validators@.map_values(|v: FieldValidator| v@) == validators_for(
                opts.fields@.subrange(0, i as int),
            ),
        decreases opts.fields@.len() - i,
    {
        let f = &opts.fields[i];
        let ghost pre = opts.fields@.subrange(0, i as int);
        let ghost cur = opts.fields@.subrange(0, i + 1);
        proof {
            assert(cur.drop_last() =~= pre);
            assert(cur.last() == *f);
        }
        if f.unique {
            let name = match &f.rename {
                Some(r) => Some(r.clone()),
                None => clone_opt(&f.ident),
            };
            if let Some(n) = name {
                unique_fields.push(n);
                proof {
                    assert(strings_view(unique_fields@) =~= unique_names(pre).push(
                        mongo_name(*f)->0,
                    ));
                }
            }
        }
        if let Some(v) = build_field_validation(f) {
            validators.push(v);
            proof {
                assert(validators@.map_values(|v: FieldValidator| v@) =~= validators_for(pre).push(
                    validator_for(*f)->0,
                ));
            }
        }
        i += 1;
    }
    proof {
        assert(opts.fields@.subrange(0, opts.fields@.len() as int) =~= opts.fields@);
    }
    SchemaInfo { collection_name, timestamps: opts.timestamps, unique_fields, validators }
}

impl SchemaInfo {
    /// Run this schema's validators against the values of their fields.
    pub fn validate(&self, values: &Vec<Option<&str>>) -> (r: Result<(), MongooseError>)
        ensures
            validation_result(
                r,
                first_validation_error(
                    self.validators@.map_values(|v: FieldValidator| v@),
                    values@.map_values(|o: Option<&str>| opt_str_view(o)),
                ),
            ),
    {
        validate_fields(&self.validators, values)
    }
}

/// The name of the model handle generated for the schema type `ident`:
/// `ident` followed by `Model`.
pub fn derive_model(ident: &str) -> (name: String)
    ensures
        name@ == ident@ + "Model"@,
{
    String::from_str(ident).concat("Model")
}

} // verus!
