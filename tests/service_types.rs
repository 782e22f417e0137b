use rust_web_dev::config::{Config, ConfigEnv};
use rust_web_dev::error::Error;
use rust_web_dev::pagination::{extract_pagination, Pagination};
use rust_web_dev::types::{Question, QuestionId};

fn params(pairs: &[(&str, &str)]) -> Vec<(String, String)> {
    pairs.iter().map(|(k, v)| (k.to_string(), v.to_string())).collect()
}

#[test]
fn pagination_reads_limit_and_offset() {
    let p = extract_pagination(&params(&[("limit", "10"), ("offset", "1")]));
    assert_eq!(p, Ok(Pagination { limit: Some(10), offset: 1 }));
    let p = extract_pagination(&params(&[("offset", "-3"), ("x", "y"), ("limit", "0")]));
    assert_eq!(p, Ok(Pagination { limit: Some(0), offset: -3 }));
}

#[test]
fn pagination_needs_both_parameters() {
    assert_eq!(extract_pagination(&params(&[("limit", "10")])), Err(Error::MissingParameters));
    assert_eq!(extract_pagination(&params(&[])), Err(Error::MissingParameters));
}

#[test]
fn pagination_parameters_must_be_numbers() {
    assert_eq!(
        extract_pagination(&params(&[("limit", "ten"), ("offset", "1")])),
        Err(Error::ParseError)
    );
    assert_eq!(
        extract_pagination(&params(&[("limit", "1"), ("offset", "99999999999")])),
        Err(Error::ParseError)
    );
}

fn args() -> Config {
    Config {
        log_level: "warn".to_string(),
        port: 8080,
        db_user: "username".to_string(),
        db_password: "password".to_string(),
        db_host: "localhost".to_string(),
        db_port: 5432,
        db_name: "rustwebdev".to_string(),
    }
}

#[test]
fn config_takes_environment_over_arguments() {
    let env = ConfigEnv {
        port: Some("3030".to_string()),
        db_user: Some("user".to_string()),
        db_password: Some("pass".to_string()),
        db_host: None,
        db_port: Some("6543".to_string()),
        db_name: None,
    };
    let expected = Config {
        log_level: "warn".to_string(),
        port: 3030,
        db_user: "user".to_string(),
        db_password: "pass".to_string(),
        db_host: "localhost".to_string(),
        db_port: 6543,
        db_name: "rustwebdev".to_string(),
    };
    assert_eq!(Config::new(args(), env), Ok(expected));
}

#[test]
fn config_refuses_a_bad_port() {
    let env = ConfigEnv {
        port: Some("http".to_string()),
        db_user: None,
        db_password: Some("pass".to_string()),
        db_host: None,
        db_port: None,
        db_name: None,
    };
    assert_eq!(Config::new(args(), env), Err(Error::ParseError));
    let env = ConfigEnv {
        port: None,
        db_user: None,
        db_password: Some("pass".to_string()),
        db_host: None,
        db_port: Some("70000".to_string()),
        db_name: None,
    };
    assert_eq!(Config::new(args(), env), Err(Error::ParseError));
}

#[test]
fn question_new_keeps_its_fields() {
    let q = Question::new(
        QuestionId(1),
        "First".to_string(),
        "Content".to_string(),
        Some(vec!["faq".to_string()]),
    );
    assert_eq!(q.id, QuestionId(1));
    assert_eq!(q.title, "First");
    assert_eq!(q.content, "Content");
    assert_eq!(q.tags, Some(vec!["faq".to_string()]));
}

#[test]
fn unset_and_set_api_key() {
    let env = ConfigEnv {
        port: None,
        db_user: Some("user".to_string()),
        db_password: Some("pass".to_string()),
        db_host: Some("localhost".to_string()),
        db_port: Some("5432".to_string()),
        db_name: Some("rustwebdev".to_string()),
    };
    let expected = Config {
        log_level: "warn".to_string(),
        port: 8080,
        db_user: "user".to_string(),
        db_password: "pass".to_string(),
        db_host: "localhost".to_string(),
        db_port: 5432,
        db_name: "rustwebdev".to_string(),
    };
    let config = Config::new(args(), env).unwrap();
    assert_eq!(config, expected);
}
