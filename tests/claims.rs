use auth_core::claims::{encode_claims, parse_claims, Claims};

fn claims(pid: &str, login: &str, exp: u64) -> Claims {
    Claims { pid: pid.to_string(), login: login.to_string(), exp }
}

#[test]
fn encode_plain_document() {
    let text = encode_claims(&claims("42", "alice@x.com", 1700000000));
    assert_eq!(text, "{\"pid\":\"42\",\"login\":\"alice@x.com\",\"exp\":1700000000}");
}

#[test]
fn encode_escapes_quotes_backslashes_and_controls() {
    let text = encode_claims(&claims("1", "a\"b\\c\nd\u{1f}", 0));
    assert_eq!(text, "{\"pid\":\"1\",\"login\":\"a\\\"b\\\\c\\u000ad\\u001f\",\"exp\":0}");
}

#[test]
fn encoded_document_is_json() {
    let text = encode_claims(&claims("7", "é\"\u{1}😀", u64::MAX));
    let v: serde_json::Value = serde_json::from_str(&text).unwrap();
    assert_eq!(v["pid"], "7");
    assert_eq!(v["login"], "é\"\u{1}😀");
    assert_eq!(v["exp"].as_u64(), Some(u64::MAX));
}

#[test]
fn parse_reads_back_what_was_written() {
    for (pid, login, exp) in [
        ("42", "alice@x.com", 1700000000u64),
        ("", "", 0),
        ("-3", "quote\" back\\ tab\t nul\u{0}", u64::MAX),
        ("9", "Ünïcödé 😀", 10),
    ] {
        let c = parse_claims(&encode_claims(&claims(pid, login, exp))).unwrap();
        assert_eq!(c.pid, pid);
        assert_eq!(c.login, login);
        assert_eq!(c.exp, exp);
    }
}

#[test]
fn parse_rejects_other_documents() {
    for text in [
        "",
        "{}",
        "{\"pid\":\"1\",\"login\":\"a\",\"exp\":}",
        "{\"pid\":\"1\",\"login\":\"a\",\"exp\":12",
        "{\"pid\":\"1\",\"login\":\"a\",\"exp\":12} ",
        "{\"login\":\"a\",\"pid\":\"1\",\"exp\":12}",
        "{\"pid\":\"1\",\"login\":\"a\\x\",\"exp\":12}",
        "{\"pid\":\"1\",\"login\":\"a\",\"exp\":18446744073709551616}",
    ] {
        assert!(parse_claims(text).is_none(), "{}", text);
    }
}

#[test]
fn parse_takes_largest_expiry() {
    let c = parse_claims("{\"pid\":\"1\",\"login\":\"a\",\"exp\":18446744073709551615}").unwrap();
    assert_eq!(c.exp, u64::MAX);
}
