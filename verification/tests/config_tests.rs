use loadgen::config::{test_config, total_requested, Config, ConfigDeserializer};
use loadgen::errors::ClientError;

#[test]
fn is_valid_test() {
    let mut c = test_config();
    assert!(c.is_valid());

    c.endpoint = String::new();
    assert!(!c.is_valid());

    c.script = "file.txt".to_string();
    assert!(c.is_valid());
}

#[test]
fn endpoint_test() {
    let mut c = test_config();
    assert_eq!(c.endpoint, "http://www.example.com".to_string());

    c.endpoint = String::new();
    assert_eq!(c.endpoint, "".to_string());
}

#[test]
fn script_test() {
    let mut c = test_config();
    assert_eq!(c.script, "".to_string());

    c.script = "file.txt".to_string();
    assert_eq!(c.script, "file.txt".to_string());
}

#[test]
fn to_vector_test() {
    let c = test_config();

    // with no script body
    let v = c.to_vector(None);
    assert!(!v.is_err());

    let v = v.unwrap().clone();
    assert_eq!(v.len(), 1);
    assert_eq!(v[0].method, "GET".to_string());
}

#[test]
fn verbose_test() {
    let mut c = test_config();
    assert!(!c.verbose);

    c.verbose = false;
    assert!(!c.verbose);

    c.verbose = true;
    assert!(c.verbose);
}

#[test]
fn deserialize_test() {
    let cfg = test_config();
    let r = ConfigDeserializer {
        iterations: 5,
        method: "GET".to_string(),
        endpoint: "https://www.example.com/".to_string(),
        headers: String::new(),
        sleep: 0,
    };

    let c = cfg.deserialize(r);

    assert_eq!(c.iterations, 5);
    assert_eq!(c.method, "GET".to_string());
    assert_eq!(c.endpoint, "https://www.example.com/".to_string());
}

#[test]
fn macros_is_verbose_test() {
    let mut c = test_config();
    c.set_verbose(false);
    assert!(!c.is_verbose(), "'is_verbose()' should return false");

    c.set_verbose(true);
    assert!(c.is_verbose(), "'is_verbose()' should return true");
}

#[test]
fn macros_set_verbose_test() {
    let mut c = test_config();
    c.set_verbose(false);
    c.set_verbose(true);
    assert!(c.is_verbose(), "should return true");

    c.set_verbose(true);
    c.set_verbose(false);
    assert!(!c.is_verbose(), "should return false");
}

#[test]
fn utils_is_verbose_test() {
    let mut c = test_config();
    c.verbose = false;
    assert!(!c.is_verbose(), "'is_verbose()' should return false");

    c.verbose = true;
    assert!(c.is_verbose(), "'is_verbose()' should return true");
}

#[test]
fn utils_set_verbose_test() {
    let mut c = test_config();
    c.verbose = false;
    c.set_verbose(true);
    assert!(c.is_verbose(), "should return true");

    c.verbose = true;
    c.set_verbose(false);
    assert!(!c.is_verbose(), "should return false");
}

#[test]
fn script_line_expands_to_one_descriptor() {
    let base = test_config();
    let v = base.to_vector(Some("3|GET|http://x|Foo:bar|100")).unwrap();
    assert_eq!(v.len(), 1);
    assert_eq!(v[0].iterations, 3);
    assert_eq!(v[0].method, "GET".to_string());
    assert_eq!(v[0].endpoint, "http://x".to_string());
    assert_eq!(v[0].headers, vec!["Foo:bar".to_string()]);
    assert_eq!(v[0].sleep, 100);
}

#[test]
fn short_script_line_is_a_configuration_error() {
    let base = test_config();
    let r = base.to_vector(Some("GET|http://x"));
    assert!(matches!(r, Err(ClientError::ConfigError(_))));
}

#[test]
fn blank_and_comment_lines_are_skipped() {
    let base = test_config();
    let body = "# a comment\n\n2|POST|http://y||0\r\n";
    let v = base.to_vector(Some(body)).unwrap();
    assert_eq!(v.len(), 1);
    assert_eq!(v[0].iterations, 2);
    assert_eq!(v[0].method, "POST".to_string());
    assert_eq!(v[0].endpoint, "http://y".to_string());
}

#[test]
fn empty_script_fields_fall_back_to_the_base() {
    let mut base = test_config();
    base.iterations = 7;
    base.sleep = 5;
    let v = base.to_vector(Some("||http://z||")).unwrap();
    assert_eq!(v.len(), 1);
    assert_eq!(v[0].iterations, 7);
    assert_eq!(v[0].method, "GET".to_string());
    assert_eq!(v[0].endpoint, "http://z".to_string());
    assert_eq!(v[0].sleep, 5);
}

#[test]
fn unreadable_count_field_is_a_configuration_error() {
    let base = test_config();
    let r = base.to_vector(Some("x|GET|http://x||0"));
    assert!(matches!(r, Err(ClientError::ConfigError(_))));
}

#[test]
fn missing_endpoint_everywhere_is_fatal() {
    let mut base = test_config();
    base.endpoint = String::new();
    base.script = "file.txt".to_string();
    let r = base.to_vector(Some("3|GET|||0"));
    assert!(matches!(r, Err(ClientError::ConfigError(_))));
}

#[test]
fn script_headers_split_on_commas_and_semicolons() {
    let base = test_config();
    let v = base.to_vector(Some("1|GET|http://x|A:1,B:2;C:3|0")).unwrap();
    assert_eq!(
        v[0].headers,
        vec!["A:1".to_string(), "B:2".to_string(), "C:3".to_string()]
    );
}

#[test]
fn invalid_configuration_is_refused() {
    let mut c = test_config();
    c.output = "bogus".to_string();
    let r = Config::new(c);
    assert!(matches!(r, Err(ClientError::ConfigError(_))));

    let ok = Config::new(test_config());
    assert!(ok.is_ok());
}

#[test]
fn valid_outputs_lists_the_three_formats() {
    let c = test_config();
    assert_eq!(c.valid_outputs(), vec!["default", "csv", "json"]);
}

#[test]
fn randomize_replaces_the_placeholders() {
    let mut c = test_config();
    c.randomize = true;
    c.endpoint = "http://x/RANDOM".to_string();
    let e = c.endpoint();
    assert!(e.starts_with("http://x/"));
    assert!(!e.contains("RANDOM"));
    assert!(e["http://x/".len()..].chars().all(|ch| ch.is_ascii_digit()));

    c.endpoint = "http://x/TIMESTAMP".to_string();
    let e = c.endpoint();
    assert!(!e.contains("TIMESTAMP"));
    assert!(e["http://x/".len()..].chars().all(|ch| ch.is_ascii_digit()));
}

#[test]
fn randomize_off_leaves_strings_alone() {
    let mut c = test_config();
    c.randomize = false;
    c.endpoint = "http://x/RANDOM".to_string();
    assert_eq!(c.endpoint(), "http://x/RANDOM".to_string());
    c.headers = vec!["A:TIMESTAMP".to_string()];
    assert_eq!(c.headers(), vec!["A:TIMESTAMP".to_string()]);
}

#[test]
fn randomized_headers_keep_their_count() {
    let mut c = test_config();
    c.randomize = true;
    c.headers = vec!["A:RANDOM".to_string(), "B:2".to_string()];
    let hs = c.headers();
    assert_eq!(hs.len(), 2);
    assert!(!hs[0].contains("RANDOM"));
    assert_eq!(hs[1], "B:2".to_string());
}

#[test]
fn now_reads_as_a_number() {
    let n = Config::now();
    assert!(!n.is_empty());
    assert!(n.chars().all(|ch| ch.is_ascii_digit()));
}

#[test]
fn parse_script_yields_one_record_per_line() {
    let recs = loadgen::config::parse_script("1|GET|http://a||0\n2|PUT|http://b|X:1|9").unwrap();
    assert_eq!(recs.len(), 2);
    assert_eq!(recs[0].iterations, 1);
    assert_eq!(recs[0].method, "GET".to_string());
    assert_eq!(recs[1].endpoint, "http://b".to_string());
    assert_eq!(recs[1].headers, "X:1".to_string());
    assert_eq!(recs[1].sleep, 9);
}

#[test]
fn total_requested_sums_iteration_counts() {
    let mut a = test_config();
    a.iterations = 3;
    let mut b = test_config();
    b.iterations = 2;
    assert_eq!(total_requested(&vec![a, b]), Some(5));
    assert_eq!(total_requested(&vec![]), Some(0));
}
