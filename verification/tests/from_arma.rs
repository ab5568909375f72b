use arma_rs::{FromArma, FromArmaError};

#[test]
fn parse_tuple() {
    assert_eq!(
        (String::from("hello"), 123,),
        <(String, i32)>::from_arma(r#"["hello", 123]"#.to_string()).unwrap()
    );
}

#[test]
fn arma_parse_vec_tuple() {
    assert_eq!(
        (vec![(String::from("hello"), 123), (String::from("bye"), 321),]),
        <Vec<(String, i32)>>::from_arma(r#"[["hello", 123],["bye", 321]]"#.to_string()).unwrap()
    );
}

#[test]
fn parse_tuple_varying_types() {
    assert_eq!(
        (String::from("hello"), 123),
        <(String, i32)>::from_arma(r#"["hello", 123]"#.to_string()).unwrap()
    );
    assert_eq!(
        (String::from("hello"), String::from("world")),
        <(String, String)>::from_arma(r#"[hello, "world"]"#.to_string()).unwrap()
    );
}

#[test]
fn parse_tuple_size_errors() {
    assert!(matches!(
        <(String, i32)>::from_arma(r#"[]"#.to_string()),
        Err(FromArmaError::SizeMismatch {
            expected: 2,
            actual: 0
        })
    ));
    assert!(matches!(
        <(String, i32)>::from_arma(r#"["hello"]"#.to_string()),
        Err(FromArmaError::SizeMismatch {
            expected: 2,
            actual: 1
        })
    ));
    assert!(matches!(
        <(String, i32)>::from_arma(r#"["hello", 123, 456]"#.to_string()),
        Err(FromArmaError::SizeMismatch {
            expected: 2,
            actual: 3
        })
    ));
}

#[test]
fn parse_tuple_bracket_errors() {
    assert!(matches!(
        <(String, i32)>::from_arma(r#"["hello", 123"#.to_string()),
        Err(FromArmaError::ArrayMissingBracket(false))
    ));
    assert!(matches!(
        <(String, i32)>::from_arma(r#""hello", 123"#.to_string()),
        Err(FromArmaError::ArrayMissingBracket(true))
    ));
}

#[test]
fn test_tuple_2() {
    assert_eq!((0, 1), <(u8, u8)>::from_arma(r#"[0, 1]"#.to_string()).unwrap());
}

#[test]
fn test_tuple_3() {
    assert_eq!(
        (0, 1, 2),
        <(u8, u8, u8)>::from_arma(r#"[0, 1, 2]"#.to_string()).unwrap()
    );
}

#[test]
fn test_tuple_4() {
    assert_eq!(
        (0, 1, 2, 3),
        <(u8, u8, u8, u8)>::from_arma(r#"[0, 1, 2, 3]"#.to_string()).unwrap()
    );
}

#[test]
fn test_tuple_5() {
    assert_eq!(
        (0, 1, 2, 3, 4),
        <(u8, u8, u8, u8, u8)>::from_arma(r#"[0, 1, 2, 3, 4]"#.to_string()).unwrap()
    );
}

#[test]
fn test_tuple_6() {
    assert_eq!(
        (0, 1, 2, 3, 4, 5),
        <(u8, u8, u8, u8, u8, u8)>::from_arma(r#"[0, 1, 2, 3, 4, 5]"#.to_string()).unwrap()
    );
}

#[test]
fn test_tuple_7() {
    assert_eq!(
        (0, 1, 2, 3, 4, 5, 6),
        <(u8, u8, u8, u8, u8, u8, u8)>::from_arma(r#"[0, 1, 2, 3, 4, 5, 6]"#.to_string()).unwrap()
    );
}

#[test]
fn test_tuple_8() {
    assert_eq!(
        (0, 1, 2, 3, 4, 5, 6, 7),
        <(u8, u8, u8, u8, u8, u8, u8, u8)>::from_arma(r#"[0, 1, 2, 3, 4, 5, 6, 7]"#.to_string())
            .unwrap()
    );
}

#[test]
fn test_tuple_9() {
    assert_eq!(
        (0, 1, 2, 3, 4, 5, 6, 7, 8),
        <(u8, u8, u8, u8, u8, u8, u8, u8, u8)>::from_arma(
            r#"[0, 1, 2, 3, 4, 5, 6, 7, 8]"#.to_string()
        )
        .unwrap()
    );
}

#[test]
fn test_tuple_10() {
    assert_eq!(
        (0, 1, 2, 3, 4, 5, 6, 7, 8, 9),
        <(u8, u8, u8, u8, u8, u8, u8, u8, u8, u8)>::from_arma(
            r#"[0, 1, 2, 3, 4, 5, 6, 7, 8, 9]"#.to_string()
        )
        .unwrap()
    );
}

#[test]
fn parse_string() {
    assert_eq!(
        String::from("hello"),
        <String>::from_arma("hello".to_string()).unwrap()
    );
    assert_eq!(
        String::from("hello"),
        <String>::from_arma(r#""hello""#.to_string()).unwrap()
    );
}

#[test]
fn parse_vec() {
    assert_eq!(
        vec![String::from("hello"), String::from("bye"),],
        <Vec<String>>::from_arma(r#"["hello","bye"]"#.to_string()).unwrap()
    );
    assert_eq!(
        vec![String::from("hello"), String::from("world")],
        <Vec<String>>::from_arma(r#"[hello, "world"]"#.to_string()).unwrap()
    );
}

#[test]
fn parse_vec_bracket_errors() {
    assert!(matches!(
        <Vec<String>>::from_arma(r#"["hello","bye""#.to_string()),
        Err(FromArmaError::ArrayMissingBracket(false))
    ));
    assert!(matches!(
        <Vec<String>>::from_arma(r#""hello","bye"]"#.to_string()),
        Err(FromArmaError::ArrayMissingBracket(true))
    ));
}

#[test]
fn from_arma_parse_vec_tuple() {
    assert_eq!(
        (vec![(String::from("hello"), 123), (String::from("bye"), 321),]),
        <Vec<(String, i32)>>::from_arma(r#"[["hello", 123],["bye", 321]]"#.to_string()).unwrap()
    );
}

#[test]
fn parse_slice() {
    assert_eq!(
        vec![String::from("hello"), String::from("bye"),],
        <[String; 2]>::from_arma(r#"["hello","bye"]"#.to_string()).unwrap()
    );
}

#[test]
fn parse_slice_size_errors() {
    assert!(matches!(
        <[String; 2]>::from_arma(r#"[]"#.to_string()),
        Err(FromArmaError::SizeMismatch {
            expected: 2,
            actual: 0
        })
    ));
    assert!(matches!(
        <[String; 2]>::from_arma(r#"["hello"]"#.to_string()),
        Err(FromArmaError::SizeMismatch {
            expected: 2,
            actual: 1
        })
    ));
    assert!(matches!(
        <[String; 2]>::from_arma(r#"["hello","bye","world"]"#.to_string()),
        Err(FromArmaError::SizeMismatch {
            expected: 2,
            actual: 3
        })
    ));
}

#[test]
fn parse_exponential() {
    assert_eq!(
        1_227_700,
        <u32>::from_arma(r#"1.2277e+006"#.to_string()).unwrap()
    );
}

#[test]
fn parse_exponential_errors() {
    assert!(matches!(
        <u32>::from_arma(r#"e-10"#.to_string()),
        Err(FromArmaError::NumberMissingBase)
    ));
    assert!(matches!(
        <u32>::from_arma(r#"1.0e"#.to_string()),
        Err(FromArmaError::NumberMissingExponent)
    ));
}

#[test]
fn parse_hashmap() {
    assert_eq!(
        std::collections::HashMap::from_iter(
            vec![(String::from("hello"), 123), (String::from("bye"), 321),].into_iter()
        ),
        arma_rs::value::from_arma::keyed_from_arma::<i32>(
            r#"[["hello", 123],["bye",321]]"#.to_string()
        )
        .unwrap()
        .into_iter()
        .collect::<std::collections::HashMap<String, i32>>()
    );
}

#[test]
fn keyed_later_pair_wins() {
    let entries = arma_rs::value::from_arma::keyed_from_arma::<i32>(
        r#"[["a", 1],["b", 2],["a", 3]]"#.to_string(),
    )
    .unwrap();
    assert_eq!(entries, vec![("a".to_string(), 3), ("b".to_string(), 2)]);
    assert!(matches!(
        arma_rs::value::from_arma::keyed_from_arma::<i32>(r#"[["a", x]]"#.to_string()),
        Err(FromArmaError::PrimitiveParseError(_))
    ));
}

#[test]
fn value_keyed_integer_keys() {
    let entries = arma_rs::value::from_arma::value_keyed_from_arma::<i32, u8>(
        r#"[[1, 2],[-3, 4],[1, 5]]"#.to_string(),
    )
    .unwrap();
    assert_eq!(entries, vec![(1, 5), (-3, 4)]);
    let map: std::collections::HashMap<u64, i32> =
        arma_rs::value::from_arma::value_keyed_from_arma::<u64, i32>(r#"[[7, -1],[8, 2]]"#.to_string())
            .unwrap()
            .into_iter()
            .collect();
    assert_eq!(map, std::collections::HashMap::from_iter(vec![(7u64, -1), (8u64, 2)]));
    assert!(matches!(
        arma_rs::value::from_arma::value_keyed_from_arma::<u8, u8>(r#"[[1, 2],[x, 3]]"#.to_string()),
        Err(FromArmaError::PrimitiveParseError(_))
    ));
}
