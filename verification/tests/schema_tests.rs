use mongrel::error::MongooseError;
use mongrel::schema::{
    build_field_validation, derive_model, derive_schema, parse_enum_values, validate_fields, AsStr,
    FieldOpts, FieldValidator, SchemaOpts,
};
use mongrel::text::{split_on_commas, to_snake_case_plural, trim_string};

fn s(x: &str) -> String {
    x.to_string()
}

fn field(ident: &str) -> FieldOpts {
    FieldOpts {
        ident: Some(s(ident)),
        required: false,
        default: None,
        min_length: None,
        max_length: None,
        enum_values: None,
        unique: false,
        rename: None,
    }
}

fn message(r: Result<(), MongooseError>) -> String {
    match r {
        Err(MongooseError::Validation(m)) => m,
        other => panic!("expected a validation error, got {:?}", other),
    }
}

#[test]
fn default_collection_name_is_snake_case_plural() {
    assert_eq!(to_snake_case_plural("Article"), "articles");
    assert_eq!(to_snake_case_plural("UserProfile"), "user_profiles");
    assert_eq!(to_snake_case_plural("TestUser"), "test_users");
    assert_eq!(to_snake_case_plural(""), "s");
}

#[test]
fn comma_lists_split_and_trim() {
    assert_eq!(split_on_commas("a,,b,"), vec![s("a"), s(""), s("b"), s("")]);
    assert_eq!(split_on_commas(""), vec![s("")]);
    assert_eq!(trim_string("  draft \t"), "draft");
    assert_eq!(trim_string("   "), "");
    assert_eq!(
        parse_enum_values("draft, published, archived"),
        vec![s("draft"), s("published"), s("archived")]
    );
}

#[test]
fn validation_min_length_scenario() {
    let mut name = field("name");
    name.required = true;
    name.min_length = Some(2);
    let v = build_field_validation(&name).unwrap();
    let m = message(v.check(Some("A")));
    assert!(m.contains("name"));
    assert_eq!(m, "Field `name` must be at least 2 characters");
    assert!(v.check(Some("Al")).is_ok());
    assert!(v.check(None).is_ok());
}

#[test]
fn max_length_counts_characters() {
    let v = FieldValidator { field: s("bio"), min_length: None, max_length: Some(3), allowed: None };
    assert!(v.check(Some("äöü")).is_ok());
    assert_eq!(message(v.check(Some("abcd"))), "Field `bio` must be at most 3 characters");
}

#[test]
fn enum_values_restrict_the_field() {
    let mut role = field("role");
    role.enum_values = Some(s("admin, user"));
    let v = build_field_validation(&role).unwrap();
    assert!(v.check(Some("user")).is_ok());
    assert_eq!(message(v.check(Some("root"))), "Field `role` must be one of [\"admin\", \"user\"]");
}

#[test]
fn checks_run_min_then_max_then_allowed() {
    let v = FieldValidator {
        field: s("code"),
        min_length: Some(3),
        max_length: Some(1),
        allowed: Some(vec![s("xyz")]),
    };
    assert_eq!(message(v.check(Some("ab"))), "Field `code` must be at least 3 characters");
    assert_eq!(message(v.check(Some("abcd"))), "Field `code` must be at most 1 characters");
}

#[test]
fn fields_without_checks_get_no_validator() {
    let mut f = field("email");
    f.required = true;
    f.unique = true;
    assert!(build_field_validation(&f).is_none());
    let mut nameless = field("x");
    nameless.ident = None;
    nameless.min_length = Some(1);
    assert!(build_field_validation(&nameless).is_none());
}

#[test]
fn validators_run_in_order_and_stop_at_the_first_failure() {
    let a = FieldValidator { field: s("a"), min_length: Some(2), max_length: None, allowed: None };
    let b = FieldValidator { field: s("b"), min_length: None, max_length: Some(1), allowed: None };
    let vs = vec![a, b];
    assert!(validate_fields(&vs, &vec![Some("aa"), Some("b")]).is_ok());
    assert_eq!(
        message(validate_fields(&vs, &vec![Some("a"), Some("bbb")])),
        "Field `a` must be at least 2 characters"
    );
    assert_eq!(
        message(validate_fields(&vs, &vec![None, Some("bbb")])),
        "Field `b` must be at most 1 characters"
    );
    assert!(validate_fields(&vs, &vec![Some("aa")]).is_ok());
}

#[test]
fn derive_schema_resolves_the_declaration() {
    let id = field("id");
    let mut name = field("name");
    name.required = true;
    name.min_length = Some(2);
    let mut email = field("email");
    email.unique = true;
    let mut sku = field("sku");
    sku.unique = true;
    sku.rename = Some(s("SKU"));
    let opts = SchemaOpts {
        ident: s("TestUser"),
        fields: vec![id, name, email, sku],
        collection: Some(s("test_users")),
        timestamps: true,
    };
    let info = derive_schema(&opts);
    assert_eq!(info.collection_name, "test_users");
    assert!(info.timestamps);
    assert_eq!(info.unique_fields, vec![s("email"), s("SKU")]);
    assert_eq!(info.validators.len(), 1);
    assert_eq!(info.validators[0].field, "name");
    assert_eq!(info.validators[0].min_length, Some(2));
    let m = message(info.validate(&vec![Some("A")]));
    assert!(m.contains("name"));
}

#[test]
fn derive_schema_defaults_collection_from_type_name() {
    let opts = SchemaOpts { ident: s("BlogPost"), fields: vec![], collection: None, timestamps: false };
    let info = derive_schema(&opts);
    assert_eq!(info.collection_name, "blog_posts");
    assert!(!info.timestamps);
    assert!(info.unique_fields.is_empty());
}

#[test]
fn model_handle_name() {
    assert_eq!(derive_model("User"), "UserModel");
}

#[test]
fn as_str_reads_optional_strings() {
    assert_eq!(s("x").as_str_opt(), Some("x"));
    assert_eq!(Some(s("y")).as_str_opt(), Some("y"));
    assert_eq!(None::<String>.as_str_opt(), None);
    assert_eq!("z".as_str_opt(), Some("z"));
}

#[test]
fn trimming_follows_unicode_whitespace() {
    assert_eq!(trim_string("\u{3000}draft\u{a0}\u{2029}"), "draft");
    assert_eq!(trim_string("\u{85}\u{1680}x y\u{202f}"), "x y");
    assert_eq!(trim_string("\u{200b}x"), "\u{200b}x");
}

#[test]
fn length_bounds_are_written_in_decimal() {
    let v = FieldValidator { field: s("t"), min_length: Some(1203), max_length: Some(0), allowed: None };
    assert_eq!(message(v.check(Some("ab"))), "Field `t` must be at least 1203 characters");
    let v = FieldValidator { field: s("t"), min_length: None, max_length: Some(10), allowed: None };
    assert_eq!(message(v.check(Some("abcdefghijk"))), "Field `t` must be at most 10 characters");
    let v = FieldValidator { field: s("t"), min_length: None, max_length: Some(0), allowed: None };
    assert_eq!(message(v.check(Some("a"))), "Field `t` must be at most 0 characters");
}
