use loadgen::client::{delim_in, split_header, Client, HeaderStringSplit};
use loadgen::config::Config;
use loadgen::errors::ClientError;

fn base_config() -> Config {
    Config {
        headers: vec!["Foo=bar".to_string(), "Bah:boo".to_string()],
        method: "GET".to_string(),
        endpoint: "http://localhost:3000".to_string(),
        script: String::new(),
        iterations: 1,
        sleep: 0,
        pool_size: 1,
        verbose: false,
        debug: false,
        errors: false,
        output: "default".to_string(),
        randomize: true,
    }
}

#[test]
fn client_new_test() {
    let mut cfg = base_config();

    let cli = Client::new(cfg.clone());
    assert!(!cli.is_err());

    let cli = cli.unwrap();
    assert_eq!(cli.headers[0], ("Foo".to_string(), "bar".to_string()));
    assert_eq!(cli.headers[1], ("Bah".to_string(), "boo".to_string()));

    cfg.headers = vec!["=ack".to_string()];
    let cli = Client::new(cfg);
    assert!(cli.is_err());
}

#[test]
fn to_header_from_string_test() {
    let good1 = "foo:bar".to_string().to_header();
    let good2 = "foo=bar".to_string().to_header();
    let fine = "foo:".to_string().to_header();
    let ugly = ":bar".to_string().to_header();
    let none = "".to_string().to_header();

    assert!(good1.is_ok());
    assert_eq!(good1.unwrap(), ("foo".to_string(), "bar".to_string()));
    assert!(good2.is_ok());
    assert_eq!(good2.unwrap(), ("foo".to_string(), "bar".to_string()));
    assert!(fine.is_ok());
    assert_eq!(fine.unwrap(), ("foo".to_string(), "".to_string()));
    assert!(ugly.is_err());
    assert!(none.is_ok());
}

#[test]
fn header_forms_parse_alike() {
    assert_eq!(
        "Name:Value".to_string().to_header().unwrap(),
        ("Name".to_string(), "Value".to_string())
    );
    assert_eq!(
        "Name=Value".to_string().to_header().unwrap(),
        ("Name".to_string(), "Value".to_string())
    );
    assert_eq!(
        "Name:".to_string().to_header().unwrap(),
        ("Name".to_string(), "".to_string())
    );
    let err = "=Value".to_string().to_header();
    assert!(matches!(err, Err(ClientError::HeaderError(_))));
}

#[test]
fn header_error_carries_the_input() {
    match split_header("=ack") {
        Err(ClientError::HeaderError(m)) => {
            assert_eq!(m, "Name cannot be empty in '=ack'");
        }
        other => panic!("expected a header error, got {:?}", other),
    }
    match split_header("plain") {
        Err(ClientError::HeaderError(m)) => {
            assert_eq!(m, "Header values cannot be empty in 'plain'");
        }
        other => panic!("expected a header error, got {:?}", other),
    }
}

#[test]
fn delim_prefers_colon() {
    assert_eq!(delim_in("a:b".to_string()), ':');
    assert_eq!(delim_in("a=b".to_string()), '=');
    assert_eq!(delim_in("a=b:c".to_string()), ':');
    assert_eq!(delim_in("plain".to_string()), ':');
}

#[test]
fn empty_header_strings_are_skipped() {
    let mut cfg = base_config();
    cfg.randomize = false;
    cfg.headers = vec!["".to_string(), "A:1".to_string()];
    let cli = Client::new(cfg).unwrap();
    assert_eq!(cli.headers.len(), 1);
    assert_eq!(cli.headers[0], ("A".to_string(), "1".to_string()));
}
