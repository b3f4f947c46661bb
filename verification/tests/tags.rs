use tagaton::server::tag::{TagRequest, TagType};

fn all_types() -> Vec<TagType> {
    vec![
        TagType::TagPost,
        TagType::TagGet,
        TagType::ImgGet,
        TagType::SeeAllList,
        TagType::SeeGroupList,
        TagType::UNKNOWN,
    ]
}

#[test]
fn tag_type_names_are_variant_names() {
    for t in all_types() {
        assert_eq!(t.to_string(), format!("{:?}", t));
    }
}

#[test]
fn tag_type_from_str_accepts_names() {
    assert_eq!(TagType::from_str("TagPost"), Ok(TagType::TagPost));
    assert_eq!(TagType::from_str("TagGet"), Ok(TagType::TagGet));
    assert_eq!(TagType::from_str("ImgGet"), Ok(TagType::ImgGet));
    assert_eq!(TagType::from_str("SeeAllList"), Ok(TagType::SeeAllList));
    assert_eq!(TagType::from_str("SeeGroupList"), Ok(TagType::SeeGroupList));
    assert_eq!(TagType::from_str("UNKNOWN"), Err(()));
    assert_eq!(TagType::from_str("tagpost"), Err(()));
    assert_eq!(TagType::from_str(""), Err(()));
}

#[test]
fn stored_kind_reads_back() {
    for t in all_types() {
        let r = TagRequest::from_row(&t.to_string(), "t".into(), "u".into(), "r".into(), "h".into(), "c".into(), "a".into());
        assert_eq!(r.tag_type, t);
    }
    let r = TagRequest::from_row("garbage", "t".into(), "u".into(), "r".into(), "h".into(), "c".into(), "a".into());
    assert_eq!(r.tag_type, TagType::UNKNOWN);
    assert_eq!(r.tag, "t");
    assert_eq!(r.url, "u");
    assert_eq!(r.referer, "r");
    assert_eq!(r.headers, "h");
    assert_eq!(r.created_at, "c");
    assert_eq!(r.remote_addr, "a");
}

#[test]
fn tag_request_chooses_tag() {
    let mk = |g: Option<Option<String>>| {
        TagRequest::new(TagType::TagGet, g, "url".into(), "ref".into(), "hdr".into(), "now".into(), "1.2.3.4".into())
    };
    assert_eq!(mk(Some(Some("abc".into()))).tag, "abc");
    assert_eq!(mk(Some(None)).tag, "PARAM BUT NO TAG");
    assert_eq!(mk(None).tag, "Router extention missing");
    let r = mk(None);
    assert_eq!(r.tag_type, TagType::TagGet);
    assert_eq!(r.url, "url");
    assert_eq!(r.referer, "ref");
    assert_eq!(r.headers, "hdr");
    assert_eq!(r.created_at, "now");
    assert_eq!(r.remote_addr, "1.2.3.4");
}

#[test]
fn posted_referer_replaces_header() {
    let r = TagRequest::new_with_separate_referer(
        TagType::TagPost,
        Some(Some("x".into())),
        "url".into(),
        "posted".into(),
        "hdr".into(),
        "now".into(),
        "ip".into(),
    );
    assert_eq!(r.referer, "posted");
    assert_eq!(r.tag, "x");
    assert_eq!(r.tag_type, TagType::TagPost);
}

#[test]
fn log_entry_text_is_insert_row() {
    let r = TagRequest {
        tag_type: TagType::ImgGet,
        tag: "it's".into(),
        url: "http://x/'y'".into(),
        referer: "Some(Referer(\"a\"))".into(),
        headers: "H: 'v'".into(),
        created_at: "2017-01-01T00:00:00Z".into(),
        remote_addr: "127.0.0.1".into(),
    };
    let expected = format!(
        "\n(\n  '{tag_type}', '{created_at}', '{remote_addr}',\n  '{unique_tag}',\n  '{url_from}', '{referer}', '{headers}')\n",
        tag_type = "ImgGet",
        unique_tag = r.tag.replace("'", "''"),
        url_from = r.url.replace("'", "''"),
        referer = r.referer,
        headers = r.headers.replace("'", "''"),
        created_at = r.created_at,
        remote_addr = r.remote_addr
    );
    assert_eq!(r.log_entry_to_string(), expected);
    assert_eq!(
        r.log_entry_to_string(),
        "\n(\n  'ImgGet', '2017-01-01T00:00:00Z', '127.0.0.1',\n  'it''s',\n  'http://x/''y''', 'Some(Referer(\"a\"))', 'H: ''v''')\n"
    );
}
