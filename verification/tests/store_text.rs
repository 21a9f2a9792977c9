use std::path::PathBuf;
use tomlreadwr::error::ConfigError;
use tomlreadwr::toml_config::TomlConfig;
use toml::Value;

const DOCUMENT: &str = r#"
name = "demo"
count = 3
ratio = 0.25
on = true
when = 1979-05-27T07:32:00Z
day = 1979-05-27
list = [1, 2, 3]
mixed = [["a", "b"], [1.5, 2.5]]

[owner]
name = "someone"

[owner.address]
city = "somewhere"
lines = ["one", "two"]

[[item]]
id = 1

[[item]]
id = 2
inline = { x = 1, y = { z = "deep" } }
"#;

fn store(text: &str) -> TomlConfig {
    TomlConfig::load(PathBuf::from("config.toml"), text).unwrap()
}

#[test]
fn save_writes_what_load_reads_back() {
    let first = store(DOCUMENT);
    let written = first.save().unwrap();
    let second = store(&written);
    assert_eq!(second.get_data(), first.get_data());
    let third = store(&second.save().unwrap());
    assert_eq!(third.get_data(), first.get_data());
    assert_eq!(second.save().unwrap(), written);
}

#[test]
fn save_of_a_small_document() {
    let cfg = store("[a]\nb = 1\n");
    assert_eq!(cfg.save(), Ok("[a]\nb = 1\n".to_string()));
}

#[test]
fn save_of_the_empty_document() {
    let cfg = store("");
    assert_eq!(cfg.save(), Ok(String::new()));
}

#[test]
fn save_shows_the_edits() {
    let mut cfg = store("[a]\nb = 1\n");
    cfg.set("a.b", Value::Integer(2)).unwrap();
    cfg.create("c.d", Value::String("x".to_string())).unwrap();
    assert_eq!(cfg.save(), Ok("[a]\nb = 2\n\n[c]\nd = \"x\"\n".to_string()));
    cfg.delete("a.b").unwrap();
    cfg.delete("c").unwrap();
    assert_eq!(cfg.save(), Ok("[a]\n".to_string()));
}

#[test]
fn save_sees_the_value_that_was_set() {
    let mut cfg = store("");
    cfg.set("k", Value::Integer(1)).unwrap();
    let one = cfg.save().unwrap();
    cfg.set("k", Value::Integer(2)).unwrap();
    let two = cfg.save().unwrap();
    assert_eq!(one, "k = 1\n");
    assert_eq!(two, "k = 2\n");
}

#[test]
fn save_after_edits_reads_back_to_the_same_tree() {
    let mut cfg = store(DOCUMENT);
    cfg.create("new.nested.key", Value::String("value".to_string())).unwrap();
    cfg.set("owner.name", Value::Integer(7)).unwrap();
    cfg.delete("owner.address.city").unwrap();
    let again = store(&cfg.save().unwrap());
    assert_eq!(again.get_data(), cfg.get_data());
    assert_eq!(again.get_str("new.nested.key"), Some("value"));
    assert_eq!(again.get("owner.address.city"), None);
}

#[test]
fn messages_name_the_segment() {
    assert_eq!(ConfigError::EmptyKey.message(), "Key cannot be empty");
    assert_eq!(
        ConfigError::PathNotFound("part".to_string()).message(),
        "Path 'part' does not exist"
    );
    assert_eq!(ConfigError::TypeMismatch("part".to_string()).message(), "'part' is not a table");
    assert_eq!(ConfigError::RootNotTable.message(), "Parent is not a table");
    assert_eq!(ConfigError::Parse("bad text".to_string()).message(), "bad text");
    assert_eq!(ConfigError::Serialize("bad value".to_string()).message(), "bad value");
}

#[test]
fn a_parse_error_carries_the_message_of_the_codec() {
    let text = "a = = 1";
    let expected = toml::from_str::<Value>(text).unwrap_err().to_string();
    match TomlConfig::load(PathBuf::from("config.toml"), text) {
        Err(e) => {
            assert_eq!(e, ConfigError::Parse(expected.clone()));
            assert_eq!(e.message(), expected);
        }
        Ok(_) => panic!("the text was accepted"),
    }
}
