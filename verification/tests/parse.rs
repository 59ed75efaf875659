use openvpn_plugin::parse;
use openvpn_plugin::parse::{
    env_utf8, split_entry, string_array, string_array_utf8, EnvMap, ParseError,
};

#[test]
fn string_array_null() {
    assert_eq!(Err(ParseError::NullPtr), string_array(None));
}

#[test]
fn string_array_empty() {
    let result = string_array(Some(Vec::new())).unwrap();
    assert!(result.is_empty());
}

#[test]
fn string_array_no_space_trim() {
    let result = string_array(Some(vec![b" foobar ".to_vec()])).unwrap();
    assert_eq!([b" foobar ".to_vec()], &result[..]);
}

#[test]
fn string_array_two_strings() {
    let result = string_array(Some(vec![b"foo".to_vec(), b"bar".to_vec()])).unwrap();
    assert_eq!([b"foo".to_vec(), b"bar".to_vec()], &result[..]);
}

#[test]
fn string_array_utf8_happy_path() {
    let array = vec![b"foo".to_vec(), b"bar".to_vec()];
    let result = string_array_utf8(&array).unwrap();
    assert_eq!(vec!["foo", "bar"], result);
}

#[test]
fn string_array_utf8_invalid() {
    // 192 is not a valid utf8 byte
    let array = vec![vec![192]];
    assert!(string_array_utf8(&array).is_err());
}

#[test]
fn string_array_utf8_names_offender() {
    let array = vec![b"fine".to_vec(), vec![192], b"also fine".to_vec()];
    assert_eq!(
        Err(ParseError::InvalidText(vec![192])),
        string_array_utf8(&array)
    );
}

#[test]
fn string_array_utf8_decodes_multibyte() {
    // "kék" is two characters wide per "é": the decoded text differs from
    // the raw bytes both in length and content.
    let array = vec![vec![107, 195, 169, 107]];
    let result = string_array_utf8(&array).unwrap();
    assert_eq!(vec!["k\u{e9}k"], result);
    assert_eq!(3, result[0].chars().count());
}

#[test]
fn env_one_value() {
    let key = b"var_a".to_vec();
    let value = b"value_b".to_vec();

    let result = parse::env(Some(vec![b"var_a=value_b".to_vec()])).unwrap();
    assert_eq!(1, result.len());
    assert_eq!(Some(&value), result.get(&key));
}

#[test]
fn env_no_equal() {
    let result = parse::env(Some(vec![b"foobar".to_vec()]));
    assert_eq!(result, Err(ParseError::NoEqual(b"foobar".to_vec())));
}

#[test]
fn env_double_equal() {
    let key = b"foo".to_vec();
    let value = b"bar=baz".to_vec();

    let env = parse::env(Some(vec![b"foo=bar=baz".to_vec()])).unwrap();
    assert_eq!(1, env.len());
    assert_eq!(Some(&value), env.get(&key));
}

#[test]
fn env_two_same_key() {
    let key = b"foo".to_vec();
    let value = b"abc".to_vec();

    let env = parse::env(Some(vec![b"foo=123".to_vec(), b"foo=abc".to_vec()])).unwrap();
    assert_eq!(1, env.len());
    assert_eq!(Some(&value), env.get(&key));
}

#[test]
fn env_null() {
    assert_eq!(Err(ParseError::NullPtr), parse::env(None));
}

#[test]
fn env_empty_value() {
    let env = parse::env(Some(vec![b"empty=".to_vec()])).unwrap();
    assert_eq!(Some(&Vec::new()), env.get(&b"empty".to_vec()));
}

#[test]
fn env_reports_first_bad_entry() {
    let result = parse::env(Some(vec![
        b"good=1".to_vec(),
        b"first-bad".to_vec(),
        b"second-bad".to_vec(),
    ]));
    assert_eq!(result, Err(ParseError::NoEqual(b"first-bad".to_vec())));
}

#[test]
fn env_utf8_happy_path() {
    let mut env = EnvMap::new();
    env.insert(b"foo".to_vec(), b"bar".to_vec());
    env.insert(b"baz".to_vec(), b"123".to_vec());
    let result = env_utf8(&env).unwrap();
    assert_eq!(2, result.len());
    let foo = result.iter().find(|pair| pair.0 == "foo").unwrap();
    assert_eq!("bar", foo.1);
    let baz = result.iter().find(|pair| pair.0 == "baz").unwrap();
    assert_eq!("123", baz.1);
}

#[test]
fn env_utf8_invalid() {
    // 192 is not a valid utf8 byte
    let mut env = EnvMap::new();
    env.insert(vec![192], b"bar".to_vec());
    assert!(env_utf8(&env).is_err());
}

#[test]
fn split_entry_at_first_equal() {
    let result = split_entry(&b"foo=bar=baz".to_vec()).unwrap();
    assert_eq!((b"foo".to_vec(), b"bar=baz".to_vec()), result);
}

#[test]
fn env_map_insert_overwrites() {
    let mut map = EnvMap::new();
    map.insert(b"k".to_vec(), b"old".to_vec());
    map.insert(b"other".to_vec(), b"kept".to_vec());
    map.insert(b"k".to_vec(), b"new".to_vec());
    assert_eq!(2, map.len());
    assert_eq!(Some(&b"new".to_vec()), map.get(&b"k".to_vec()));
    assert_eq!(Some(&b"kept".to_vec()), map.get(&b"other".to_vec()));
    assert_eq!(None, map.get(&b"absent".to_vec()));
}
