use tagaton::config::{Config, ConfigError, TomlValue};
use tagaton::my_log::{log_config, LogFormat, ROTATE_OVER_SIZE};
use tagaton::server::http::{make_routes, setup_options, ContentKind, Endpoint, HttpMethod, Listing};
use tagaton::server::router::{self, RouteHandler};
use tagaton::server::tag::TagType;
use tagaton::server::tagging_router;

#[test]
fn config_reads_sensitive_key() {
    let c = Config::try_new("[paths]\nsensitive_path_key = \"s3cr3t\"\n").unwrap();
    assert_eq!(c.sensitive_path_key, "s3cr3t");
    let c = Config::new("title = 1\n[paths]\nother = 2\nsensitive_path_key = \"k\"\n");
    assert_eq!(c.sensitive_path_key, "k");
}

#[test]
fn config_errors() {
    assert_eq!(Config::try_new("[paths\n").err(), Some(ConfigError::Unparsable));
    assert_eq!(Config::try_new("x = 1\n").err(), Some(ConfigError::MissingPaths));
    assert_eq!(Config::try_new("paths = 3\n").err(), Some(ConfigError::PathsNotTable));
    assert_eq!(Config::try_new("[paths]\nother = \"a\"\n").err(), Some(ConfigError::MissingSensitivePathKey));
    assert_eq!(
        Config::try_new("[paths]\nsensitive_path_key = 1.5\n").err(),
        Some(ConfigError::SensitivePathKeyNotString)
    );
}

#[test]
fn config_from_parsed_values() {
    assert_eq!(Config::from_toml(&TomlValue::Integer(1)).err(), Some(ConfigError::RootNotTable));
    let root = TomlValue::Table(vec![(
        "paths".to_string(),
        TomlValue::Table(vec![("sensitive_path_key".to_string(), TomlValue::String("z".into()))]),
    )]);
    assert_eq!(Config::from_toml(&root).ok().map(|c| c.sensitive_path_key), Some("z".to_string()));
}

#[test]
fn route_table_of_service() {
    let routes = make_routes("KEY");
    let view: Vec<(&str, HttpMethod, &str, Endpoint)> =
        routes.iter().map(|r| (r.id.as_str(), r.method, r.path.as_str(), r.endpoint)).collect();
    assert_eq!(
        view,
        vec![
            ("id_1", HttpMethod::Get, "/hello2", Endpoint::HelloWorld),
            ("id_2", HttpMethod::Get, "/do-nothing", Endpoint::DoNothing),
            ("id_3", HttpMethod::Get, "/tagg", Endpoint::TaggVisit),
            ("id_4", HttpMethod::Get, "/tagg/:given-tag", Endpoint::TaggVisit),
            ("id_5", HttpMethod::Get, "/img/:given-tag", Endpoint::ImgVisit),
            ("id_6", HttpMethod::Post, "/tagp/:given-tag", Endpoint::TagpVisit),
            ("id_7", HttpMethod::Options, "/tagp/:given-tag", Endpoint::TagpOption),
            ("id_8", HttpMethod::Get, "/taglist/all/KEY", Endpoint::TaglistVisit),
            ("id_9", HttpMethod::Get, "/taglist/group/KEY", Endpoint::TaglistGroupVisit),
            ("id_10", HttpMethod::Get, "/*", Endpoint::DoNothing),
        ]
    );
}

#[test]
fn handler_plans() {
    let p = Endpoint::TaggVisit.plan();
    assert_eq!((p.record_as, p.text.as_str(), p.listing, p.cors), (Some(TagType::TagGet), "Tagg", Listing::Text, false));
    let p = Endpoint::ImgVisit.plan();
    assert_eq!((p.record_as, p.text.as_str(), p.content_type), (Some(TagType::ImgGet), "", ContentKind::ImagePng));
    let p = Endpoint::TagpVisit.plan();
    assert_eq!((p.record_as, p.referer_from_body, p.text.as_str(), p.cors), (Some(TagType::TagPost), true, "TAGP", true));
    let p = Endpoint::TagpOption.plan();
    assert_eq!((p.record_as, p.text.as_str(), p.cors), (None, "TAGP", true));
    let p = Endpoint::TaglistVisit.plan();
    assert_eq!((p.record_as, p.listing, p.content_type, p.list_before_record), (Some(TagType::SeeAllList), Listing::AllTags, ContentKind::Json, false));
    let p = Endpoint::TaglistGroupVisit.plan();
    assert_eq!((p.record_as, p.listing, p.list_before_record), (Some(TagType::SeeGroupList), Listing::GroupedTags, true));
    assert_eq!(Endpoint::DoNothing.plan().text, "did-nothing");
    assert_eq!(Endpoint::HelloWorld.plan().text, "Hello World2 response !");
    assert_eq!(Endpoint::HelloWorld.plan().record_as, None);
}

#[test]
fn cors_headers() {
    let p = setup_options();
    assert!(p.allow_any_origin);
    assert_eq!(p.allow_headers, vec!["X-Requested-With", "Content-Type", "Accept", "Origin"]);
    assert_eq!(p.allow_methods, vec![HttpMethod::Get, HttpMethod::Post, HttpMethod::Patch, HttpMethod::Options]);
    assert_eq!(p.max_age, 1728000);
    assert_eq!(p.request_headers, vec!["date"]);
    assert_eq!(p.request_method, HttpMethod::Post);
}

#[test]
fn basic_router_routes_hello() {
    let mut r = router::Router::new();
    r.init();
    assert_eq!(r.handle(&vec!["hello".to_string()]), (200, "Hello World !".to_string()));
    assert_eq!(r.handle(&vec!["hello2".to_string()]), (404, String::new()));
    assert_eq!(r.handle(&vec!["a".to_string(), "b".to_string()]), (404, String::new()));
    r.add_route("a/b".to_string(), RouteHandler::Hello2);
    assert_eq!(r.handle(&vec!["a".to_string(), "b".to_string()]), (200, "Hello World2 !".to_string()));
}

#[test]
fn tagging_router_routes_both() {
    let mut r = tagging_router::Router::new();
    r.init();
    assert_eq!(r.handle(&vec!["hello".to_string()]), (200, "Hello World !".to_string()));
    assert_eq!(r.handle(&vec!["hello2".to_string()]), (200, "Hello World2 !".to_string()));
    assert_eq!(r.handle(&vec![]), (404, String::new()));
}

#[test]
fn logger_settings() {
    let s = log_config("./logs".to_string());
    assert_eq!(s.rotate_over_size, Some(1024 * 100_000));
    assert_eq!(ROTATE_OVER_SIZE, 102_400_000);
    assert_eq!(s.directory.as_deref(), Some("./logs"));
    assert!(s.log_to_file && s.timestamp);
    assert_eq!(s.format, LogFormat::Detailed);
}

#[test]
fn added_entries_keep_key() {
    let c1 = "[paths]\nsensitive_path_key = \"abc\"\n";
    let c2 = "top = 1\n[paths]\nextra = \"e\"\nsensitive_path_key = \"abc\"\n[db]\nfile = \"x\"\n";
    assert_eq!(
        Config::try_new(c1).unwrap().sensitive_path_key,
        Config::try_new(c2).unwrap().sensitive_path_key
    );
}
