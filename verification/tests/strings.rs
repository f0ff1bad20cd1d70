use pmp_iq::strings::{blank_to_none, interpolate_env, percent_encode, MapEnv};

#[test]
fn none_passes_through() {
    assert_eq!(blank_to_none(None), None);
}

#[test]
fn empty_and_whitespace_become_none() {
    assert_eq!(blank_to_none(Some(String::new())), None);
    assert_eq!(blank_to_none(Some("   ".into())), None);
}

#[test]
fn value_is_trimmed() {
    assert_eq!(blank_to_none(Some("  x  ".into())), Some("x".into()));
}

#[test]
fn interpolates_set_variable() {
    let env = MapEnv::new().with("HOST", "db.internal");
    assert_eq!(interpolate_env("h=${HOST}", &env), "h=db.internal");
}

#[test]
fn uses_default_when_unset() {
    let env = MapEnv::new();
    assert_eq!(interpolate_env("p=${PORT:-5432}", &env), "p=5432");
}

#[test]
fn set_variable_wins_over_default() {
    let env = MapEnv::new().with("PORT", "9999");
    assert_eq!(interpolate_env("p=${PORT:-5432}", &env), "p=9999");
}

#[test]
fn unset_without_default_is_empty() {
    let env = MapEnv::new();
    assert_eq!(interpolate_env("x=${MISSING}y", &env), "x=y");
}

#[test]
fn double_dollar_escapes() {
    let env = MapEnv::new();
    assert_eq!(interpolate_env("cost=$$5", &env), "cost=$5");
}

#[test]
fn lone_dollar_is_literal() {
    let env = MapEnv::new();
    assert_eq!(interpolate_env("a $ b", &env), "a $ b");
}

#[test]
fn percent_encode_keeps_unreserved_escapes_rest() {
    assert_eq!(percent_encode("read:user org"), "read%3Auser%20org");
    assert_eq!(percent_encode("http://x/cb"), "http%3A%2F%2Fx%2Fcb");
    assert_eq!(percent_encode("Aa0-_.~"), "Aa0-_.~");
}

#[test]
fn interpolation_trims_the_variable_name_but_not_the_default() {
    let env = MapEnv::new().with("HOST", "h1");
    assert_eq!(interpolate_env("${ HOST }", &env), "h1");
    assert_eq!(interpolate_env("${NOPE:- d }", &env), " d ");
}

#[test]
fn unterminated_reference_consumes_the_rest() {
    let env = MapEnv::new().with("A", "1");
    assert_eq!(interpolate_env("x${A", &env), "x1");
    assert_eq!(interpolate_env("end$", &env), "end$");
}

#[test]
fn percent_encode_escapes_each_utf8_byte() {
    assert_eq!(percent_encode("é"), "%C3%A9");
    assert_eq!(percent_encode(""), "");
}

#[test]
fn map_env_get_and_override() {
    let env = MapEnv::new().with("A", "1").with("A", "2").with("B", "3");
    assert_eq!(env.get("A"), Some("2".to_string()));
    assert_eq!(env.get("B"), Some("3".to_string()));
    assert_eq!(env.get("C"), None);
}

#[test]
fn text_without_dollar_is_unchanged() {
    let env = MapEnv::new().with("X", "y");
    assert_eq!(interpolate_env("plain {text} with X and }", &env), "plain {text} with X and }");
}

#[test]
fn percent_encoding_is_url_safe() {
    let out = percent_encode("a b/ü?&=#%");
    assert!(out.chars().all(|c| c.is_ascii_alphanumeric() || "-_.~%".contains(c)));
    assert_eq!(out, "a%20b%2F%C3%BC%3F%26%3D%23%25");
}

fn percent_decode(s: &str) -> Vec<u8> {
    let b = s.as_bytes();
    let mut out = Vec::new();
    let mut i = 0;
    while i < b.len() {
        if b[i] == b'%' {
            out.push(u8::from_str_radix(&s[i + 1..i + 3], 16).unwrap());
            i += 3;
        } else {
            out.push(b[i]);
            i += 1;
        }
    }
    out
}

#[test]
fn percent_encoding_round_trips_and_fixes_unreserved_text() {
    for v in ["é", "a b&c=d/é~", "plain-Text_1.2~", "", "%41"] {
        let e = percent_encode(v);
        assert!(e.is_ascii());
        assert_eq!(percent_decode(&e), v.as_bytes());
    }
    assert_eq!(percent_encode("é"), "%C3%A9");
    assert_eq!(percent_encode("plain-Text_1.2~"), "plain-Text_1.2~");
    assert_ne!(percent_encode("a b"), "a b");
    assert_ne!(percent_encode("ü"), "ü");
}
