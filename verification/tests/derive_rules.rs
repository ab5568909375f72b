use arma_rs::derive_rules::{
    plan_named_fields, plan_tuple_fields, struct_shape, validate_attributes, AttrError, FieldSource,
    ShapeError, StructShape,
};
use arma_rs::FromArmaError;

#[test]
fn shapes() {
    assert_eq!(struct_shape(true, false, 3), Ok(StructShape::Named(3)));
    assert_eq!(struct_shape(false, false, 1), Ok(StructShape::NewType));
    assert_eq!(struct_shape(false, false, 2), Ok(StructShape::Tuple(2)));
    assert_eq!(struct_shape(true, false, 1), Ok(StructShape::Named(1)));
    assert_eq!(struct_shape(false, true, 0), Err(ShapeError::UnitLike));
    assert_eq!(struct_shape(true, false, 0), Err(ShapeError::UnitLike));
    assert_eq!(struct_shape(false, false, 0), Err(ShapeError::UnitLike));
}

#[test]
fn valid_attributes() {
    assert!(validate_attributes(false, false, StructShape::Named(2), &vec![false, true]).is_empty());
    assert!(validate_attributes(true, false, StructShape::Named(1), &vec![false]).is_empty());
    assert!(validate_attributes(true, false, StructShape::NewType, &vec![false]).is_empty());
    assert!(validate_attributes(false, true, StructShape::Tuple(2), &vec![false, false]).is_empty());
    assert!(validate_attributes(false, false, StructShape::Tuple(3), &vec![false, true, true]).is_empty());
}

#[test]
fn transparent_errors() {
    assert_eq!(
        validate_attributes(true, false, StructShape::Named(2), &vec![false, false]),
        vec![AttrError::TransparentNeedsOneField]
    );
    assert_eq!(
        validate_attributes(true, false, StructShape::Tuple(2), &vec![false, false]),
        vec![AttrError::TransparentOnTuple]
    );
}

#[test]
fn default_errors() {
    assert_eq!(
        validate_attributes(true, true, StructShape::Named(1), &vec![false]),
        vec![AttrError::DefaultWithTransparent(None)]
    );
    assert_eq!(
        validate_attributes(true, false, StructShape::Named(3), &vec![false, true, false]),
        vec![
            AttrError::TransparentNeedsOneField,
            AttrError::DefaultWithTransparent(Some(1))
        ]
    );
    assert_eq!(
        validate_attributes(false, false, StructShape::NewType, &vec![true]),
        vec![AttrError::DefaultOnNewType(Some(0))]
    );
    assert_eq!(
        validate_attributes(false, true, StructShape::NewType, &vec![false]),
        vec![AttrError::DefaultOnNewType(None)]
    );
}

#[test]
fn tuple_default_order() {
    assert_eq!(
        validate_attributes(false, false, StructShape::Tuple(4), &vec![false, true, false, false]),
        vec![
            AttrError::DefaultRequired { field: 2, after: 1 },
            AttrError::DefaultRequired { field: 3, after: 1 }
        ]
    );
    assert_eq!(
        validate_attributes(true, false, StructShape::Tuple(3), &vec![true, true, false]),
        vec![
            AttrError::TransparentOnTuple,
            AttrError::DefaultRequired { field: 2, after: 0 }
        ]
    );
}

fn pairs(v: &[(&str, &str)]) -> Vec<(String, String)> {
    v.iter().map(|(k, x)| (k.to_string(), x.to_string())).collect()
}

fn strings(v: &[&str]) -> Vec<String> {
    v.iter().map(|s| s.to_string()).collect()
}

#[test]
fn named_fields_given() {
    let (plan, unknown) = plan_named_fields(
        &pairs(&[("b", "\"x\""), ("a", "1")]),
        &strings(&["a", "b"]),
        &vec![false, false],
        false,
    )
    .unwrap();
    assert_eq!(plan.len(), 2);
    assert!(matches!(&plan[0], FieldSource::Given(s) if s == "1"));
    assert!(matches!(&plan[1], FieldSource::Given(s) if s == "\"x\""));
    assert!(unknown.is_none());
}

#[test]
fn named_fields_duplicate_key() {
    let r = plan_named_fields(
        &pairs(&[("a", "1"), ("b", "2"), ("a", "3"), ("b", "4")]),
        &strings(&["a", "b"]),
        &vec![false, false],
        false,
    );
    assert!(matches!(r, Err(FromArmaError::Custom(s)) if s == "duplicate field: a"));
}

#[test]
fn named_fields_missing() {
    let (plan, unknown) =
        plan_named_fields(&pairs(&[("a", "1")]), &strings(&["a", "b"]), &vec![false, false], false)
            .unwrap();
    assert!(matches!(&plan[0], FieldSource::Given(s) if s == "1"));
    assert!(matches!(&plan[1], FieldSource::Missing(FromArmaError::MapMissingField(s)) if s == "b"));
    assert!(unknown.is_none());
}

#[test]
fn named_fields_defaults() {
    let (plan, _) =
        plan_named_fields(&pairs(&[]), &strings(&["a", "b"]), &vec![true, false], true).unwrap();
    assert!(matches!(plan[0], FieldSource::FieldDefault));
    assert!(matches!(plan[1], FieldSource::ContainerDefault));
    let (plan, _) =
        plan_named_fields(&pairs(&[("b", "2")]), &strings(&["a", "b"]), &vec![true, true], false)
            .unwrap();
    assert!(matches!(plan[0], FieldSource::FieldDefault));
    assert!(matches!(&plan[1], FieldSource::Given(s) if s == "2"));
}

#[test]
fn named_fields_unknown_key() {
    let (plan, unknown) = plan_named_fields(
        &pairs(&[("a", "1"), ("c", "2"), ("d", "3")]),
        &strings(&["a"]),
        &vec![false],
        false,
    )
    .unwrap();
    assert!(matches!(&plan[0], FieldSource::Given(s) if s == "1"));
    assert_eq!(unknown, Some("c".to_string()));
}

#[test]
fn tuple_fields_given() {
    let (plan, surplus) = plan_tuple_fields(&strings(&["1", "2"]), &vec![false, false], false);
    assert!(matches!(&plan[0], FieldSource::Given(s) if s == "1"));
    assert!(matches!(&plan[1], FieldSource::Given(s) if s == "2"));
    assert!(surplus.is_none());
}

#[test]
fn tuple_fields_missing() {
    let (plan, surplus) = plan_tuple_fields(&strings(&["1"]), &vec![false, false, false], false);
    assert!(matches!(&plan[0], FieldSource::Given(s) if s == "1"));
    assert!(matches!(
        plan[1],
        FieldSource::Missing(FromArmaError::SizeMismatch { expected: 3, actual: 1 })
    ));
    assert!(matches!(
        plan[2],
        FieldSource::Missing(FromArmaError::SizeMismatch { expected: 3, actual: 2 })
    ));
    assert!(surplus.is_none());
}

#[test]
fn tuple_fields_defaults() {
    let (plan, _) = plan_tuple_fields(&strings(&["1"]), &vec![false, true, false], true);
    assert!(matches!(&plan[0], FieldSource::Given(s) if s == "1"));
    assert!(matches!(plan[1], FieldSource::FieldDefault));
    assert!(matches!(plan[2], FieldSource::ContainerDefault));
}

#[test]
fn tuple_fields_surplus() {
    let (plan, surplus) = plan_tuple_fields(&strings(&["1", "2", "3"]), &vec![false, false], false);
    assert_eq!(plan.len(), 2);
    assert!(matches!(surplus, Some(FromArmaError::SizeMismatch { expected: 2, actual: 3 })));
}
