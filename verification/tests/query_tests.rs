use parse_rs::json::{parse_json, write_json};
use parse_rs::query::{aggregate_params, distinct_values};
use parse_rs::{ErrorKind, JsonValue, ParseQuery, Pointer};

fn param<'a>(params: &'a [(String, String)], name: &str) -> &'a str {
    for (k, v) in params {
        if k == name {
            return v;
        }
    }
    panic!("no parameter named {}", name);
}

fn has_param(params: &[(String, String)], name: &str) -> bool {
    params.iter().any(|(k, _)| k == name)
}

#[test]
fn compiling_twice_yields_identical_lists() {
    let mut q = ParseQuery::new("GameScore");
    q.equal_to("playerName", JsonValue::Str("Sean".to_owned()));
    q.greater_than("score", JsonValue::Int(1000));
    q.limit(25);
    q.skip(5);
    q.order_by_descending("score");
    q.include_paths(&vec!["opponent".to_owned()]);
    q.select(&vec!["score".to_owned(), "playerName".to_owned()]);
    let first = q.build_query_params();
    let second = q.build_query_params();
    assert_eq!(first, second);
}

#[test]
fn key_sets_are_sorted_and_idempotent_under_duplicates() {
    let mut q = ParseQuery::new("Game");
    q.include_paths(&vec!["zeta".to_owned(), "alpha".to_owned(), "zeta".to_owned()]);
    let once = q.build_query_params();
    assert_eq!(param(&once, "include"), "alpha,zeta");

    q.include_paths(&vec!["alpha".to_owned(), "zeta".to_owned()]);
    let twice = q.build_query_params();
    assert_eq!(once, twice);

    q.select(&vec!["b".to_owned(), "a".to_owned(), "b".to_owned()]);
    q.select(&vec!["a".to_owned()]);
    let params = q.build_query_params();
    assert_eq!(param(&params, "keys"), "a,b");
}

#[test]
fn replace_then_append_order_compiles_to_both_keys() {
    let mut q = ParseQuery::new("Game");
    q.order_by_ascending("x");
    q.add_descending_order("y");
    let params = q.build_query_params();
    assert_eq!(param(&params, "order"), "x,-y");
}

#[test]
fn order_styles_compose() {
    let mut q = ParseQuery::new("Game");
    q.add_ascending_order("a");
    q.add_descending_order("b");
    q.add_ascending_order("c");
    assert_eq!(param(&q.build_query_params(), "order"), "a,-b,c");

    q.order_by_descending("z");
    assert_eq!(param(&q.build_query_params(), "order"), "-z");

    q.order("score,-playerName");
    assert_eq!(param(&q.build_query_params(), "order"), "score,-playerName");
}

#[test]
fn contained_in_compiles_to_in_operator() {
    let mut q = ParseQuery::new("Game");
    q.contained_in(
        "name",
        vec![JsonValue::Str("a".to_owned()), JsonValue::Str("b".to_owned())],
    );
    let params = q.build_query_params();
    assert_eq!(param(&params, "where"), "{\"name\":{\"$in\":[\"a\",\"b\"]}}");
}

#[test]
fn equality_and_limit_compile_together() {
    let mut q = ParseQuery::new("Game");
    q.equal_to("score", JsonValue::Int(100));
    q.limit(10);
    let params = q.build_query_params();
    assert_eq!(param(&params, "where"), "{\"score\":100}");
    assert_eq!(param(&params, "limit"), "10");
}

#[test]
fn string_helpers_escape_metacharacters() {
    let mut q = ParseQuery::new("Game");
    q.starts_with("name", "a.b*c");
    assert_eq!(
        param(&q.build_query_params(), "where"),
        "{\"name\":{\"$regex\":\"^a\\\\.b\\\\*c\"}}"
    );

    let mut q2 = ParseQuery::new("Game");
    q2.ends_with("name", "x+y");
    assert_eq!(
        param(&q2.build_query_params(), "where"),
        "{\"name\":{\"$regex\":\"x\\\\+y$\"}}"
    );

    let mut q3 = ParseQuery::new("Game");
    q3.contains("name", "(mid)");
    assert_eq!(
        param(&q3.build_query_params(), "where"),
        "{\"name\":{\"$regex\":\".*\\\\(mid\\\\).*\"}}"
    );
}

#[test]
fn last_write_per_field_wins() {
    let mut q = ParseQuery::new("Game");
    q.greater_than("score", JsonValue::Int(10));
    q.less_than("score", JsonValue::Int(90));
    let params = q.build_query_params();
    assert_eq!(param(&params, "where"), "{\"score\":{\"$lt\":90}}");
}

#[test]
fn where_is_omitted_without_constraints() {
    let mut q = ParseQuery::new("Game");
    q.limit(3);
    let params = q.build_query_params();
    assert!(!has_param(&params, "where"));
    assert_eq!(params.len(), 1);
}

#[test]
fn comparison_operators_compile() {
    let mut q = ParseQuery::new("Game");
    q.not_equal_to("a", JsonValue::Int(1));
    q.greater_than_or_equal_to("b", JsonValue::Int(2));
    q.less_than_or_equal_to("c", JsonValue::Int(3));
    q.field_exists("d");
    q.does_not_exist("e");
    q.not_contained_in("f", vec![JsonValue::Int(4)]);
    q.contains_all("g", vec![JsonValue::Int(5), JsonValue::Int(6)]);
    let w = param(&q.build_query_params(), "where").to_owned();
    assert_eq!(
        w,
        "{\"a\":{\"$ne\":1},\"b\":{\"$gte\":2},\"c\":{\"$lte\":3},\"d\":{\"$exists\":true},\"e\":{\"$exists\":false},\"f\":{\"$nin\":[4]},\"g\":{\"$all\":[5,6]}}"
    );
}

#[test]
fn matches_regex_carries_options() {
    let mut q = ParseQuery::new("Game");
    q.matches_regex("name", "^abc$", Some("i"));
    assert_eq!(
        param(&q.build_query_params(), "where"),
        "{\"name\":{\"$regex\":\"^abc$\",\"$options\":\"i\"}}"
    );
}

#[test]
fn search_compiles_nested_text_value() {
    let mut q = ParseQuery::new("Article");
    q.search("body", "verus", Some("en"), Some(false), None);
    assert_eq!(
        param(&q.build_query_params(), "where"),
        "{\"body\":{\"$text\":{\"$search\":{\"$term\":\"verus\",\"$language\":\"en\",\"$caseSensitive\":false}}}}"
    );
}

#[test]
fn related_to_replaces_other_constraints() {
    let mut q = ParseQuery::new("Comment");
    q.equal_to("spam", JsonValue::Bool(false));
    let post = Pointer::new("Post", "postId123");
    q.related_to(&post, "comments");
    assert_eq!(
        param(&q.build_query_params(), "where"),
        "{\"$relatedTo\":{\"object\":{\"__type\":\"Pointer\",\"className\":\"Post\",\"objectId\":\"postId123\"},\"key\":\"comments\"}}"
    );
}

#[test]
fn count_mode_forces_limit_zero_and_count_flag() {
    let mut q = ParseQuery::new("Game");
    q.equal_to("active", JsonValue::Bool(true));
    q.limit(50);
    let params = q.build_count_params();
    assert_eq!(param(&params, "limit"), "0");
    assert_eq!(param(&params, "count"), "1");
    assert_eq!(param(&params, "where"), "{\"active\":true}");
}

#[test]
fn first_mode_forces_limit_one() {
    let mut q = ParseQuery::new("Game");
    q.limit(50);
    let params = q.build_first_params();
    assert_eq!(param(&params, "limit"), "1");
}

#[test]
fn distinct_pipeline_has_match_only_with_constraints() {
    let q = ParseQuery::new("Game");
    let params = q.build_distinct_params("playerName");
    assert_eq!(
        param(&params, "pipeline"),
        "[{\"$group\":{\"_id\":\"$playerName\"}}]"
    );

    let mut q2 = ParseQuery::new("Game");
    q2.equal_to("active", JsonValue::Bool(true));
    let params2 = q2.build_distinct_params("playerName");
    assert_eq!(
        param(&params2, "pipeline"),
        "[{\"$match\":{\"active\":true}},{\"$group\":{\"_id\":\"$playerName\"}}]"
    );
}

#[test]
fn aggregate_pipeline_passes_through_verbatim() {
    let stage = JsonValue::Obj(vec![(
        "$match".to_owned(),
        JsonValue::Obj(vec![("score".to_owned(), JsonValue::Int(7))]),
    )]);
    let pipeline = JsonValue::Arr(vec![stage]);
    let params = aggregate_params(&pipeline);
    assert_eq!(params.len(), 1);
    assert_eq!(params[0].0, "pipeline");
    assert_eq!(params[0].1, "[{\"$match\":{\"score\":7}}]");
}

#[test]
fn distinct_decoding_reads_object_id_key() {
    let rows = vec![
        JsonValue::Obj(vec![("objectId".to_owned(), JsonValue::Str("red".to_owned()))]),
        JsonValue::Obj(vec![
            ("_id".to_owned(), JsonValue::Str("wrong".to_owned())),
            ("objectId".to_owned(), JsonValue::Str("blue".to_owned())),
        ]),
    ];
    let values = distinct_values(rows).unwrap();
    assert_eq!(write_json(&values[0]), "\"red\"");
    assert_eq!(write_json(&values[1]), "\"blue\"");
}

#[test]
fn distinct_decoding_rejects_rows_without_object_id() {
    let rows = vec![JsonValue::Obj(vec![(
        "_id".to_owned(),
        JsonValue::Str("only-underscore-id".to_owned()),
    )])];
    let err = distinct_values(rows).unwrap_err();
    assert_eq!(err.kind, ErrorKind::ResponseDecodeFailed);
}

#[test]
fn json_writer_escapes_and_formats() {
    let v = JsonValue::Obj(vec![
        ("s".to_owned(), JsonValue::Str("a\"b\\c\nd".to_owned())),
        ("n".to_owned(), JsonValue::Int(-42)),
        ("z".to_owned(), JsonValue::Null),
        (
            "arr".to_owned(),
            JsonValue::Arr(vec![JsonValue::Bool(true), JsonValue::Bool(false)]),
        ),
    ]);
    assert_eq!(
        write_json(&v),
        "{\"s\":\"a\\\"b\\\\c\\nd\",\"n\":-42,\"z\":null,\"arr\":[true,false]}"
    );
}

#[test]
fn json_writer_handles_control_characters_and_extremes() {
    let v = JsonValue::Obj(vec![
        ("ctl".to_owned(), JsonValue::Str("\u{1}".to_owned())),
        ("lo".to_owned(), JsonValue::Int(i64::MIN)),
        ("hi".to_owned(), JsonValue::Int(i64::MAX)),
    ]);
    assert_eq!(
        write_json(&v),
        "{\"ctl\":\"\\u0001\",\"lo\":-9223372036854775808,\"hi\":9223372036854775807}"
    );
}

#[test]
fn negative_limit_serializes_with_its_sign() {
    let mut q = ParseQuery::new("Game");
    q.limit(-1);
    assert_eq!(param(&q.build_query_params(), "limit"), "-1");
}

#[test]
fn parsing_inverts_writing_on_documents() {
    let v = JsonValue::Obj(vec![
        ("s".to_owned(), JsonValue::Str("a\"b\\c\nd".to_owned())),
        ("n".to_owned(), JsonValue::Int(-42)),
        ("z".to_owned(), JsonValue::Null),
        (
            "arr".to_owned(),
            JsonValue::Arr(vec![
                JsonValue::Bool(true),
                JsonValue::Obj(vec![]),
                JsonValue::Arr(vec![]),
            ]),
        ),
    ]);
    let text = write_json(&v);
    let back = parse_json(&text).unwrap();
    assert_eq!(write_json(&back), text);
}

#[test]
fn parsing_accepts_whitespace_and_escapes() {
    let v = parse_json(" { \"a\" : [ 1 , \"\\u0041\\t\" ] , \"b\" : null } ").unwrap();
    assert_eq!(write_json(&v), "{\"a\":[1,\"A\\t\"],\"b\":null}");
}

#[test]
fn parsing_rejects_malformed_documents() {
    assert!(parse_json("").is_none());
    assert!(parse_json("{").is_none());
    assert!(parse_json("{\"a\":1,}").is_none());
    assert!(parse_json("[1 2]").is_none());
    assert!(parse_json("1.").is_none());
    assert!(parse_json("1e").is_none());
    assert!(parse_json("1e+").is_none());
    assert!(parse_json("tru").is_none());
    assert!(parse_json("\"unterminated").is_none());
    assert!(parse_json("null extra").is_none());
}

#[test]
fn fractional_and_oversized_numbers_round_trip_as_lexemes() {
    let fraction = parse_json("{\"avg\":12.75}").unwrap();
    assert_eq!(write_json(&fraction), "{\"avg\":12.75}");

    let exponent = parse_json("[1e3,-2.5E+10]").unwrap();
    assert_eq!(write_json(&exponent), "[1e3,-2.5E+10]");

    let oversized = parse_json("99999999999999999999999999").unwrap();
    assert_eq!(write_json(&oversized), "99999999999999999999999999");
    assert!(matches!(oversized, JsonValue::Num(_)));

    let integral = parse_json("1200").unwrap();
    assert!(matches!(integral, JsonValue::Int(1200)));
}

#[test]
fn parsing_keeps_integer_extremes() {
    let v = parse_json("[-9223372036854775808,9223372036854775807]").unwrap();
    assert_eq!(
        write_json(&v),
        "[-9223372036854775808,9223372036854775807]"
    );
}
