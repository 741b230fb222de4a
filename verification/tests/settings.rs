use zorca::config::{file_format, Builder, Config, Format, Grant, Yaml, DEFAULT_TICKET_EXPIRE_SEC};

fn text(s: &str) -> Yaml {
    Yaml::String(s.to_string())
}

fn hash(entries: Vec<(&str, Yaml)>) -> Yaml {
    Yaml::Hash(entries.into_iter().map(|(k, v)| (text(k), v)).collect())
}

fn secure_document(md: &str, id: i64, secret: &str) -> Yaml {
    hash(vec![
        ("other", Yaml::Boolean(true)),
        ("secure", hash(vec![("mod", text(md)), ("client_id", Yaml::Integer(id)), ("client_secret", text(secret))])),
    ])
}

#[test]
fn defaults_reuse_a_ticket_for_ten_minutes() {
    let config = Config::new_with_defaults();
    assert_eq!(config.ticket_expire_sec, Some(600));
    assert_eq!(DEFAULT_TICKET_EXPIRE_SEC, 600);
    assert!(config.secure.is_none());
    let built = Builder::new().build();
    assert_eq!(built.ticket_expire_sec, Some(600));
    assert!(built.secure.is_none());
}

#[test]
fn builder_takes_a_profile() {
    let mut builder = Builder::new();
    builder.add_secure("TVM".to_string(), 11, "s1".to_string(), None);
    builder.add_secure("TVM".to_string(), 12, "s2".to_string(), Some(Grant::ClientCredentials));
    let config = builder.build();
    let secure = config.secure.unwrap();
    assert_eq!(secure.md, "TVM");
    assert_eq!(secure.client_id, 12);
    assert_eq!(secure.client_secret, "s2");
    assert_eq!(secure.grant, Some(Grant::ClientCredentials));
    assert_eq!(config.ticket_expire_sec, Some(600));
}

#[test]
fn document_with_a_profile_is_read() {
    let mut builder = Builder::new();
    builder.update_from_yaml(vec![secure_document("TVM", 42, "hush")]);
    let secure = builder.build().secure.unwrap();
    assert_eq!(secure.get_mod(), "TVM");
    assert_eq!(secure.client_id, 42);
    assert_eq!(secure.client_secret, "hush");
    assert!(secure.grant.is_none());
}

#[test]
fn last_document_with_a_profile_wins() {
    let mut builder = Builder::new();
    builder.update_from_yaml(vec![
        secure_document("TVM", 1, "one"),
        Yaml::Null,
        secure_document("OTHER", 2, "two"),
        hash(vec![("secure", hash(vec![("mod", text("TVM"))]))]),
    ]);
    let secure = builder.build().secure.unwrap();
    assert_eq!(secure.md, "OTHER");
    assert_eq!(secure.client_id, 2);
}

#[test]
fn incomplete_profile_is_passed_over() {
    let documents = vec![
        Yaml::BadValue,
        Yaml::Array(vec![secure_document("TVM", 1, "one")]),
        hash(vec![("secure", text("TVM"))]),
        hash(vec![("secure", hash(vec![("mod", text("TVM")), ("client_id", text("7")), ("client_secret", text("s"))]))]),
        hash(vec![("secure", hash(vec![("mod", Yaml::Integer(1)), ("client_id", Yaml::Integer(7)), ("client_secret", text("s"))]))]),
        hash(vec![("secure", hash(vec![("mod", text("TVM")), ("client_id", Yaml::Integer(7))]))]),
        Yaml::Hash(vec![(Yaml::Integer(1), hash(vec![]))]),
    ];
    let mut builder = Builder::new();
    builder.update_from_yaml(documents);
    assert!(builder.build().secure.is_none());

    let mut kept = Builder::new();
    kept.add_secure("TVM".to_string(), 5, "s".to_string(), None);
    kept.update_from_yaml(vec![Yaml::Null]);
    assert_eq!(kept.build().secure.unwrap().client_id, 5);
}

#[test]
fn nodes_answer_by_their_kind() {
    let doc = secure_document("TVM", 3, "s");
    assert!(doc.is_hash());
    assert!(doc.get("missing").is_none());
    assert!(doc.get("secure").unwrap().is_hash());
    assert_eq!(doc.get("secure").unwrap().get("client_id").unwrap().as_i64(), Some(3));
    assert_eq!(doc.get("secure").unwrap().get("mod").unwrap().as_str().unwrap(), "TVM");
    assert!(text("x").get("x").is_none());
    assert!(Yaml::Integer(1).as_str().is_none());
    assert!(text("1").as_i64().is_none());
    assert!(!Yaml::Real("1.5".to_string()).is_hash());
    assert!(Yaml::Alias(1).as_i64().is_none());
}

#[test]
fn format_goes_by_the_extension() {
    assert_eq!(file_format("yaml"), Format::Yaml);
    assert_eq!(file_format("yml"), Format::Yaml);
    assert_eq!(file_format("toml"), Format::Toml);
    assert_eq!(file_format("tml"), Format::Toml);
    assert_eq!(file_format("json"), Format::Unsupported);
    assert_eq!(file_format("YAML"), Format::Unsupported);
    assert_eq!(file_format(""), Format::Unsupported);
}
