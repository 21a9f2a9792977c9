use std::path::PathBuf;
use tomlreadwr::error::ConfigError;
use tomlreadwr::toml_config::TomlConfig;
use toml::Value;

fn store(text: &str) -> TomlConfig {
    TomlConfig::load(PathBuf::from("config.toml"), text).unwrap()
}

fn empty_table() -> Value {
    Value::Table(toml::map::Map::new())
}

fn text(s: &str) -> Value {
    Value::String(s.to_string())
}

fn outcome(r: Result<&mut TomlConfig, ConfigError>) -> Result<(), ConfigError> {
    r.map(|_| ())
}

#[test]
fn set_then_get_gives_the_value_back() {
    let moment: toml::value::Datetime = "1979-05-27T07:32:00Z".parse().unwrap();
    let mut inner = toml::map::Map::new();
    inner.insert("k".to_string(), Value::Integer(-4));
    let values = vec![
        text("hello"),
        text(""),
        Value::Integer(42),
        Value::Integer(i64::MIN),
        Value::Integer(i64::MAX),
        Value::Float(1.5),
        Value::Float(-0.0),
        Value::Boolean(true),
        Value::Boolean(false),
        Value::Datetime(moment),
        Value::Array(vec![Value::Integer(1), text("two"), Value::Array(vec![])]),
        Value::Table(inner),
        empty_table(),
    ];
    for v in values {
        let mut cfg = store("[a.b]\nc = 0\n");
        for key in ["top", "a.x", "a.b.c", "a.b.new"] {
            assert_eq!(outcome(cfg.set(key, v.clone())), Ok(()));
            assert_eq!(cfg.get(key), Some(&v));
        }
    }
}

#[test]
fn set_overwrites_a_value_of_another_kind() {
    let mut cfg = store("[a]\nb = 1\n");
    assert_eq!(outcome(cfg.set("a.b", text("now a string"))), Ok(()));
    assert_eq!(cfg.get("a.b"), Some(&text("now a string")));
    assert_eq!(outcome(cfg.set("a", Value::Integer(5))), Ok(()));
    assert_eq!(cfg.get("a"), Some(&Value::Integer(5)));
    assert_eq!(cfg.get("a.b"), None);
}

#[test]
fn set_leaves_the_other_entries_alone() {
    let mut cfg = store("x = 1\n[a]\nb = 1\nc = 2\n[d]\ne = 3\n");
    assert_eq!(outcome(cfg.set("a.b", Value::Integer(10))), Ok(()));
    assert_eq!(cfg.get("x"), Some(&Value::Integer(1)));
    assert_eq!(cfg.get("a.c"), Some(&Value::Integer(2)));
    assert_eq!(cfg.get("d.e"), Some(&Value::Integer(3)));
    assert_eq!(cfg.get("a.b"), Some(&Value::Integer(10)));
}

#[test]
fn set_fails_with_path_not_found_where_create_succeeds() {
    let mut cfg = store("");
    assert_eq!(
        outcome(cfg.set("a.b", Value::Integer(1))),
        Err(ConfigError::PathNotFound("a".to_string()))
    );
    assert_eq!(cfg.get_data(), &empty_table());
    assert_eq!(outcome(cfg.create("a.b", Value::Integer(1))), Ok(()));
    assert_eq!(cfg.get("a.b"), Some(&Value::Integer(1)));
}

#[test]
fn set_names_the_first_missing_segment() {
    let mut cfg = store("[a.b]\nc = 1\n");
    assert_eq!(
        outcome(cfg.set("a.x.y.z", Value::Integer(1))),
        Err(ConfigError::PathNotFound("x".to_string()))
    );
    assert_eq!(
        outcome(cfg.set("a.b.q.z", Value::Integer(1))),
        Err(ConfigError::PathNotFound("q".to_string()))
    );
}

#[test]
fn set_through_a_scalar_fails_with_type_mismatch() {
    let mut cfg = store("x = 1\n");
    let before = cfg.get_data().clone();
    assert_eq!(
        outcome(cfg.set("x.y", Value::Integer(2))),
        Err(ConfigError::TypeMismatch("x".to_string()))
    );
    assert_eq!(cfg.get_data(), &before);
    assert_eq!(cfg.get("x"), Some(&Value::Integer(1)));
}

#[test]
fn create_and_delete_through_a_scalar_fail_with_type_mismatch() {
    let mut cfg = store("[a]\nx = [1, 2]\n");
    let before = cfg.get_data().clone();
    assert_eq!(
        outcome(cfg.create("a.x.y.z", Value::Integer(2))),
        Err(ConfigError::TypeMismatch("x".to_string()))
    );
    assert_eq!(cfg.get_data(), &before);
    assert_eq!(outcome(cfg.delete("a.x.y")), Err(ConfigError::TypeMismatch("x".to_string())));
    assert_eq!(cfg.get_data(), &before);
}

#[test]
fn edits_reject_an_empty_key() {
    let mut cfg = store("[a]\nb = 1\n");
    let before = cfg.get_data().clone();
    for key in ["", ".", "a.", ".a", "a..b", ".."] {
        assert_eq!(outcome(cfg.set(key, Value::Integer(1))), Err(ConfigError::EmptyKey));
        assert_eq!(outcome(cfg.create(key, Value::Integer(1))), Err(ConfigError::EmptyKey));
        assert_eq!(outcome(cfg.delete(key)), Err(ConfigError::EmptyKey));
        assert_eq!(cfg.get_data(), &before);
    }
}

#[test]
fn create_makes_the_tables_on_the_way() {
    let mut cfg = store("");
    assert_eq!(outcome(cfg.create("a.b.c", text("v"))), Ok(()));
    assert_eq!(cfg.get("a.b.c"), Some(&text("v")));
    assert!(cfg.get("a").unwrap().is_table());
    assert!(cfg.get("a.b").unwrap().is_table());
    let mut b = toml::map::Map::new();
    b.insert("c".to_string(), text("v"));
    let mut a = toml::map::Map::new();
    a.insert("b".to_string(), Value::Table(b));
    let mut root = toml::map::Map::new();
    root.insert("a".to_string(), Value::Table(a));
    assert_eq!(cfg.get_data(), &Value::Table(root));
}

#[test]
fn create_keeps_the_tables_that_are_there() {
    let mut cfg = store("[a]\nkeep = 1\n[a.b]\nalso = 2\n");
    assert_eq!(outcome(cfg.create("a.b.c.d", Value::Boolean(true))), Ok(()));
    assert_eq!(cfg.get("a.keep"), Some(&Value::Integer(1)));
    assert_eq!(cfg.get("a.b.also"), Some(&Value::Integer(2)));
    assert_eq!(cfg.get("a.b.c.d"), Some(&Value::Boolean(true)));
}

#[test]
fn create_with_one_segment_stores_at_the_root() {
    let mut cfg = store("a = 1\n");
    assert_eq!(outcome(cfg.create("b", Value::Integer(2))), Ok(()));
    assert_eq!(outcome(cfg.create("a", Value::Integer(3))), Ok(()));
    assert_eq!(cfg.get("a"), Some(&Value::Integer(3)));
    assert_eq!(cfg.get("b"), Some(&Value::Integer(2)));
}

#[test]
fn delete_removes_the_entry_and_keeps_its_table() {
    let mut cfg = store("[a]\nb = 1\n");
    assert_eq!(cfg.get("a.b"), Some(&Value::Integer(1)));
    assert_eq!(outcome(cfg.delete("a.b")), Ok(()));
    assert_eq!(cfg.get("a.b"), None);
    assert_eq!(cfg.get("a"), Some(&empty_table()));
}

#[test]
fn delete_of_an_absent_entry_succeeds() {
    let mut cfg = store("[a]\nb = 1\n");
    let before = cfg.get_data().clone();
    assert_eq!(outcome(cfg.delete("a.nothing")), Ok(()));
    assert_eq!(outcome(cfg.delete("nothing")), Ok(()));
    assert_eq!(cfg.get_data(), &before);
}

#[test]
fn delete_twice_succeeds_twice() {
    let mut cfg = store("[a]\nb = 1\nc = 2\n");
    assert_eq!(outcome(cfg.delete("a.b")), Ok(()));
    let after_first = cfg.get_data().clone();
    assert_eq!(outcome(cfg.delete("a.b")), Ok(()));
    assert_eq!(cfg.get_data(), &after_first);
    assert_eq!(cfg.get("a.c"), Some(&Value::Integer(2)));
}

#[test]
fn delete_below_a_missing_table_fails() {
    let mut cfg = store("[a]\nb = 1\n");
    assert_eq!(outcome(cfg.delete("x.y")), Err(ConfigError::PathNotFound("x".to_string())));
    assert_eq!(outcome(cfg.delete("a.x.y")), Err(ConfigError::PathNotFound("x".to_string())));
}

#[test]
fn delete_removes_a_whole_table() {
    let mut cfg = store("[a.b]\nc = 1\n[d]\ne = 2\n");
    assert_eq!(outcome(cfg.delete("a")), Ok(()));
    assert_eq!(cfg.get("a"), None);
    assert_eq!(cfg.get("a.b.c"), None);
    assert_eq!(cfg.get("d.e"), Some(&Value::Integer(2)));
}

#[test]
fn edits_can_be_chained() {
    let mut cfg = store("");
    let r = cfg
        .create("server.port", Value::Integer(8080))
        .and_then(|c| c.set("server.host", Value::String("localhost".to_string())))
        .and_then(|c| c.delete("server.port"))
        .map(|_| ());
    assert_eq!(r, Ok(()));
    assert_eq!(cfg.get_str("server.host"), Some("localhost"));
    assert_eq!(cfg.get("server.port"), None);
}

#[test]
fn edits_keep_the_path() {
    let mut cfg = TomlConfig::load(PathBuf::from("some/where.toml"), "").unwrap();
    assert_eq!(outcome(cfg.create("a.b", Value::Integer(1))), Ok(()));
    assert_eq!(outcome(cfg.set("x.y", Value::Integer(1))), Err(ConfigError::PathNotFound("x".to_string())));
    assert_eq!(cfg.get_path(), &PathBuf::from("some/where.toml"));
}
