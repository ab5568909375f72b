use arma_rs::call_context::ArmaCallContext;
use arma_rs::loadout::{Container, InventoryItem, Loadout, Magazine, Weapon};
use arma_rs::text::{quote, string_value};
use arma_rs::{CallContextStackTrace, Caller, FromArma, FromArmaError, Mission, Server, Source};

#[test]
fn integers_read_back_their_text() {
    for v in [i32::MIN, -1, 0, 7, 123, i32::MAX] {
        assert_eq!(<i32>::from_arma(v.to_string()).unwrap(), v);
    }
    for v in [0u64, 1, 76561198000000000, u64::MAX] {
        assert_eq!(<u64>::from_arma(v.to_string()).unwrap(), v);
    }
    assert_eq!(<i8>::from_arma("-128".to_string()).unwrap(), -128);
    assert_eq!(<u16>::from_arma("+65535".to_string()).unwrap(), 65535);
}

#[test]
fn integer_errors() {
    assert!(matches!(
        <u8>::from_arma("256".to_string()),
        Err(FromArmaError::PrimitiveParseError(_))
    ));
    assert!(matches!(
        <u8>::from_arma("".to_string()),
        Err(FromArmaError::PrimitiveParseError(_))
    ));
    assert!(matches!(
        <u32>::from_arma("-1".to_string()),
        Err(FromArmaError::PrimitiveParseError(_))
    ));
    assert!(matches!(
        <i32>::from_arma("12a".to_string()),
        Err(FromArmaError::PrimitiveParseError(_))
    ));
    assert!(matches!(
        <u32>::from_arma("xe5".to_string()),
        Err(FromArmaError::PrimitiveParseError(_))
    ));
}

#[test]
fn exponential_notation() {
    assert_eq!(<u32>::from_arma("1.5e2".to_string()).unwrap(), 150);
    assert_eq!(<i32>::from_arma("-2.5e1".to_string()).unwrap(), -25);
    assert_eq!(<u32>::from_arma("1.99e0".to_string()).unwrap(), 1);
    assert_eq!(<u8>::from_arma("1e5".to_string()).unwrap(), 255);
    assert_eq!(<u8>::from_arma("-1e2".to_string()).unwrap(), 0);
    assert_eq!(<i64>::from_arma("5e-1".to_string()).unwrap(), 0);
}

#[test]
fn bool_and_char() {
    assert!(<bool>::from_arma("true".to_string()).unwrap());
    assert!(!<bool>::from_arma("false".to_string()).unwrap());
    assert!(matches!(
        <bool>::from_arma("True".to_string()),
        Err(FromArmaError::PrimitiveParseError(_))
    ));
    assert_eq!(<char>::from_arma("x".to_string()).unwrap(), 'x');
    assert!(matches!(
        <char>::from_arma("xy".to_string()),
        Err(FromArmaError::PrimitiveParseError(_))
    ));
}

#[test]
fn string_literal_round_trip() {
    assert_eq!(quote("hello"), "\"hello\"");
    assert_eq!(quote(r#"hello "john"."#), r#""hello ""john"".""#);
    assert_eq!(<String>::from_arma(quote("a b,c")).unwrap(), "a b,c");
    assert_eq!(<String>::from_arma(quote("")).unwrap(), "");
}

#[test]
fn vec_reads_elements() {
    assert_eq!(
        <Vec<u8>>::from_arma("[1,2,3]".to_string()).unwrap(),
        vec![1, 2, 3]
    );
    assert_eq!(
        <Vec<Vec<u8>>>::from_arma("[[1,2],[],[3]]".to_string()).unwrap(),
        vec![vec![1, 2], vec![], vec![3]]
    );
    assert_eq!(<Vec<u8>>::from_arma("[]".to_string()).unwrap(), Vec::<u8>::new());
    assert!(matches!(
        <Vec<u8>>::from_arma("[1,x]".to_string()),
        Err(FromArmaError::PrimitiveParseError(_))
    ));
}

#[test]
fn custom_error() {
    assert!(matches!(
        FromArmaError::custom("boom"),
        FromArmaError::Custom(s) if s == "boom"
    ));
    assert!(matches!(
        InventoryItem::from_arma("[\"a\"]".to_string()),
        Err(FromArmaError::Custom(s)) if s == "Invalid inventory item: [\"a\"]"
    ));
}

#[test]
fn caller_text_round_trip() {
    let caller = Caller::Steam(76561198000000000);
    assert_eq!(caller.as_str(), "76561198000000000");
    assert_eq!(Caller::from(caller.as_str().as_str()), caller);
    assert_eq!(Caller::Unknown.as_str(), "0");
    assert_eq!(Caller::from(Caller::Unknown.as_str().as_str()), Caller::Unknown);
    assert_eq!(Caller::from("not a number"), Caller::Unknown);
    assert_eq!(Caller::from(5u64).as_u64(), 5);
    assert_eq!(Caller::from(0u64), Caller::Unknown);
}

#[test]
fn call_context_without_stack_keeps_fields() {
    let ctx: CallContextStackTrace = ArmaCallContext::new(
        Caller::Steam(42),
        Source::Console,
        Mission::Mission("m".to_string()),
        Server::Multiplayer("s".to_string()),
        -2,
    );
    let plain = ctx.into_without_stack();
    assert_eq!(plain.caller(), &Caller::Steam(42));
    assert_eq!(plain.source(), &Source::Console);
    assert_eq!(plain.mission().as_str(), "m");
    assert_eq!(plain.server().as_str(), "s");
    assert_eq!(plain.remote_exec_owner(), -2);
}

#[test]
fn magazine_text_round_trip() {
    let magazine = Magazine::new("Titan_AT".to_string(), 1);
    let text = format!("[{},{}]", quote("Titan_AT"), 1);
    assert_eq!(Magazine::from_arma(text).unwrap(), magazine);
    assert_eq!(Magazine::from_arma("[]".to_string()).unwrap(), Magazine::default());
}

#[test]
fn loadout_text_round_trip() {
    let text = r#"[["arifle_MXC_F","","","optic_Holosight",[],[],""],["launch_B_Titan_short_F","","","",["Titan_AT",1],[],""],[],["U_B_CombatUniform_mcam",[["FirstAidKit",3],["30Rnd_65x39_caseless_mag",5,30]]],[],[],"H_Cap_headphones","G_Aviator",[],["ItemMap","ItemGPS","","ItemCompass","ItemWatch",""]]"#;
    let loadout = Loadout::from_arma(text.to_string()).unwrap();
    let mut expected = Loadout::default();
    expected.set_primary({
        let mut weapon = Weapon::new("arifle_MXC_F".to_string());
        weapon.set_optic("optic_Holosight".to_string());
        weapon
    });
    expected.set_secondary({
        let mut weapon = Weapon::new("launch_B_Titan_short_F".to_string());
        weapon.set_primary_magazine(Magazine::new("Titan_AT".to_string(), 1));
        weapon
    });
    let mut uniform = Container::new("U_B_CombatUniform_mcam".to_string());
    let items = uniform.items_mut().unwrap();
    items.push(InventoryItem::new_item("FirstAidKit".to_string(), 3));
    items.push(InventoryItem::new_magazine(
        "30Rnd_65x39_caseless_mag".to_string(),
        5,
        30,
    ));
    expected.set_uniform(uniform);
    expected.set_headgear("H_Cap_headphones".to_string());
    expected.set_goggles("G_Aviator".to_string());
    let assigned = expected.assigned_items_mut();
    assigned.set_map("ItemMap".to_string());
    assigned.set_terminal("ItemGPS".to_string());
    assigned.set_compass("ItemCompass".to_string());
    assigned.set_watch("ItemWatch".to_string());
    assert_eq!(loadout, expected);
}

#[test]
fn tuple_and_array_errors() {
    assert!(matches!(
        <(u8, u8)>::from_arma("[1]".to_string()),
        Err(FromArmaError::SizeMismatch { expected: 2, actual: 1 })
    ));
    assert!(matches!(
        <[u8; 3]>::from_arma("[1,2]".to_string()),
        Err(FromArmaError::SizeMismatch { expected: 3, actual: 2 })
    ));
    assert!(matches!(
        <Vec<u8>>::from_arma("1,2]".to_string()),
        Err(FromArmaError::ArrayMissingBracket(true))
    ));
}

#[test]
fn testing_result_kinds() {
    let done: arma_rs::Result<u8, u8> = arma_rs::Result::Done(1);
    assert!(done.is_ok() && !done.is_err() && !done.is_continue() && !done.is_timeout());
    let failed: arma_rs::Result<u8, u8> = arma_rs::Result::Failed(1);
    assert!(failed.is_err());
    let cont: arma_rs::Result<u8, u8> = arma_rs::Result::Continue;
    assert!(cont.is_continue());
    let timeout: arma_rs::Result<u8, u8> = arma_rs::Result::Timeout;
    assert!(timeout.is_timeout());
}

#[test]
fn wide_integers() {
    for v in [i128::MIN, -1, 0, 42, i128::MAX] {
        assert_eq!(<i128>::from_arma(v.to_string()).unwrap(), v);
    }
    for v in [0u128, 7, u64::MAX as u128 + 1, u128::MAX] {
        assert_eq!(<u128>::from_arma(v.to_string()).unwrap(), v);
    }
    assert!(matches!(
        <u128>::from_arma("340282366920938463463374607431768211456".to_string()),
        Err(FromArmaError::PrimitiveParseError(_))
    ));
    assert!(matches!(
        <i128>::from_arma("-170141183460469231731687303715884105729".to_string()),
        Err(FromArmaError::PrimitiveParseError(_))
    ));
    assert_eq!(<u128>::from_arma("1e40".to_string()).unwrap(), u128::MAX);
    assert_eq!(<i128>::from_arma("-1e40".to_string()).unwrap(), i128::MIN);
    assert_eq!(<u128>::from_arma("-5e3".to_string()).unwrap(), 0);
    assert_eq!(<i128>::from_arma("1.5e20".to_string()).unwrap(), 150_000_000_000_000_000_000);
}

#[test]
fn string_value_unescapes_once() {
    assert_eq!(string_value("\"Hello\""), "Hello");
    assert_eq!(string_value("\"Hello \"\"World\"\"\""), "Hello \"World\"");
    assert_eq!(
        string_value(r#""My name is ""John"".""#),
        "My name is \"John\"."
    );
    assert_eq!(string_value("\"\""), "");
    assert_eq!(string_value("\"abc"), "abc");
    assert_eq!(string_value("\"\"\"\"\"\""), "\"\"");
}

#[test]
fn string_value_reads_back_quote() {
    for t in ["", "plain", "\"", "a\"\"b", "end\"", "\"start", "x, [y]"] {
        assert_eq!(string_value(&quote(t)), t);
    }
}
