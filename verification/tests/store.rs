use tagaton::db::constants::{SELECT_ALL_TAG, SELECT_GROUP_TAG};
use tagaton::db::{generate_where_entries, DbController, GroupedTag};
use tagaton::server::http::batch_insert;
use tagaton::server::tag::{TagRequest, TagType};
use tagaton::str_map::StrMap;

fn tag(n: usize) -> TagRequest {
    TagRequest::new(
        TagType::TagGet,
        Some(Some(format!("t{}", n))),
        "u".into(),
        "r".into(),
        "h".into(),
        "c".into(),
        "a".into(),
    )
}

#[test]
fn new_controller_knows_five_columns() {
    let dbc = DbController::new("_SQLITE_DB");
    assert_eq!(dbc.file_path_string, "_SQLITE_DB");
    let m = &dbc.param_name_to_column_name;
    let pairs: Vec<(String, String)> =
        (0..m.len()).map(|i| (m.key_at(i).clone(), m.value_at(i).clone())).collect();
    assert_eq!(
        pairs,
        vec![
            ("referer".to_string(), "REFERER".to_string()),
            ("remote_addr".to_string(), "REMOTE_ADDR".to_string()),
            ("tag_type".to_string(), "TAG_TYPE".to_string()),
            ("unique_tag".to_string(), "UNIQUE_TAG".to_string()),
            ("url_from".to_string(), "URL_FROM".to_string()),
        ]
    );
}

#[test]
fn where_entries_follow_column_order() {
    let dbc = DbController::new("db");
    let mut params: StrMap<String> = StrMap::new();
    params.insert("url_from".into(), "x".into());
    params.insert("tag_type".into(), "TagGet".into());
    params.insert("unrelated".into(), "zzz".into());
    let entries = generate_where_entries(&params, &dbc.param_name_to_column_name);
    assert_eq!(entries, vec!["TAG_TYPE = 'TagGet'".to_string(), "URL_FROM = 'x'".to_string()]);
    let q = dbc.select_where_entries(&params);
    assert_eq!(
        q,
        "\nSELECT\n  ID, TAG_TYPE, UNIQUE_TAG,\n  URL_FROM, REFERER, HEADERS,\n  CREATED_AT, REMOTE_ADDR\nFROM\n  ATAG_TAG\nWHERE\n    TAG_TYPE = 'TagGet' AND URL_FROM = 'x'\n"
    );
}

#[test]
fn where_without_known_params_is_empty() {
    let dbc = DbController::new("db");
    let params: StrMap<String> = StrMap::new();
    assert!(generate_where_entries(&params, &dbc.param_name_to_column_name).is_empty());
}

#[test]
fn fixed_selects() {
    let dbc = DbController::new("db");
    assert_eq!(dbc.select_all_entries(), SELECT_ALL_TAG);
    assert_eq!(dbc.select_grouped_entries(), SELECT_GROUP_TAG);
    assert!(SELECT_ALL_TAG.contains("UNIQUE_TAG, \n"));
    assert!(SELECT_GROUP_TAG.contains("GROUP BY TAG_TYPE, UNIQUE_TAG, REFERER, REMOTE_ADDR"));
}

#[test]
fn insert_many_joins_rows() {
    let dbc = DbController::new("db");
    let tags = vec![tag(1), tag(2)];
    let rows: Vec<String> = tags.iter().map(|t| t.log_entry_to_string()).collect();
    let expected = format!(
        "\nINSERT INTO ATAG_TAG (\n  TAG_TYPE, CREATED_AT, REMOTE_ADDR,\n  UNIQUE_TAG,\n  URL_FROM, REFERER, HEADERS)\nVALUES {}\n",
        rows.join(", ")
    );
    assert_eq!(dbc.insert_many_log_to_db(tags), expected);
}

#[test]
fn batch_of_empty_queue_is_none() {
    let mut dbc = DbController::new("db");
    assert!(batch_insert(&mut dbc).is_none());
}

#[test]
fn batches_write_tags_in_queue_order() {
    let mut dbc = DbController::new("db");
    for n in 0..3 {
        dbc.insert_log_entry(tag(n));
    }
    let stmt = batch_insert(&mut dbc).expect("three tags queued");
    let expected = dbc.insert_many_log_to_db(vec![tag(0), tag(1), tag(2)]);
    assert_eq!(stmt, expected);
    assert!(batch_insert(&mut dbc).is_none());
}

#[test]
fn a_batch_takes_at_most_five_hundred() {
    let mut dbc = DbController::new("db");
    for n in 0..501 {
        dbc.insert_log_entry(tag(n));
    }
    let first = batch_insert(&mut dbc).unwrap();
    assert_eq!(first.matches("\n(\n").count(), 500);
    assert!(first.contains("'t499'"));
    assert!(!first.contains("'t500'"));
    let second = batch_insert(&mut dbc).unwrap();
    assert_eq!(second, dbc.insert_many_log_to_db(vec![tag(500)]));
    assert!(batch_insert(&mut dbc).is_none());
}

#[test]
fn grouped_tag_fields() {
    let g = GroupedTag::new(3, "TagGet".into(), "t".into(), "r".into(), "a".into());
    assert_eq!(g.count, 3);
    assert_eq!(g.tag_type, "TagGet");
    assert_eq!(g.unique_tag, "t");
    assert_eq!(g.referer, "r");
    assert_eq!(g.remote_addr, "a");
}

#[test]
fn unknown_parameter_changes_nothing_known_one_adds_its_condition() {
    let dbc = DbController::new("db");
    let mut p: StrMap<String> = StrMap::new();
    p.insert("url_from".into(), "x".into());
    let base = dbc.select_where_entries(&p);
    let mut p_unknown: StrMap<String> = StrMap::new();
    p_unknown.insert("url_from".into(), "x".into());
    p_unknown.insert("colour".into(), "red".into());
    assert_eq!(dbc.select_where_entries(&p_unknown), base);
    let mut p_known: StrMap<String> = StrMap::new();
    p_known.insert("url_from".into(), "x".into());
    p_known.insert("referer".into(), "r".into());
    assert_eq!(
        generate_where_entries(&p_known, &dbc.param_name_to_column_name),
        vec!["REFERER = 'r'".to_string(), "URL_FROM = 'x'".to_string()]
    );
}

#[test]
fn tag_is_written_by_batch_n_over_500_plus_one() {
    let mut dbc = DbController::new("db");
    for n in 0..1001 {
        dbc.insert_log_entry(tag(n));
    }
    // tag 1000 has 1000 tags ahead of it: written by batch 1000 / 500 + 1 = 3
    let b1 = batch_insert(&mut dbc).unwrap();
    let b2 = batch_insert(&mut dbc).unwrap();
    let b3 = batch_insert(&mut dbc).unwrap();
    assert!(!b1.contains("'t1000'") && !b2.contains("'t1000'"));
    assert!(b2.contains("'t999'"));
    assert_eq!(b3, dbc.insert_many_log_to_db(vec![tag(1000)]));
    assert!(batch_insert(&mut dbc).is_none());
}
