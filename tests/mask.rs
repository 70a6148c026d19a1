use wgpu_3dgs_viewer_app::mask::{check_mask_code, GaussianSplattingMaskOp, MaskEditError, MaskOpTree, MaskParseError, MaskParseErrorKind};

fn shape(i: usize) -> Box<GaussianSplattingMaskOp> {
    Box::new(GaussianSplattingMaskOp::Shape(i))
}

fn shown(r: &Result<Option<GaussianSplattingMaskOp>, MaskParseError>) -> String {
    format!("{:?}", r)
}

#[test]
fn parse_blank_text_is_no_restriction() {
    assert!(matches!(GaussianSplattingMaskOp::parse(""), Ok(None)));
    assert!(matches!(GaussianSplattingMaskOp::parse("   "), Ok(None)));
    assert!(matches!(GaussianSplattingMaskOp::parse(" \t\n "), Ok(None)));
}

#[test]
fn parse_union_binds_loosest() {
    let expected: Result<Option<GaussianSplattingMaskOp>, MaskParseError> = Ok(Some(GaussianSplattingMaskOp::Union(
        shape(0),
        Box::new(GaussianSplattingMaskOp::Intersection(shape(1), shape(2))),
    )));
    assert_eq!(shown(&GaussianSplattingMaskOp::parse("0 | 1 & 2")), shown(&expected));
}

#[test]
fn parse_difference_is_left_associative() {
    let expected: Result<Option<GaussianSplattingMaskOp>, MaskParseError> = Ok(Some(GaussianSplattingMaskOp::Difference(
        Box::new(GaussianSplattingMaskOp::Difference(shape(0), shape(1))),
        shape(2),
    )));
    assert_eq!(shown(&GaussianSplattingMaskOp::parse("0 - 1 - 2")), shown(&expected));
}

#[test]
fn parse_double_complement() {
    let expected: Result<Option<GaussianSplattingMaskOp>, MaskParseError> = Ok(Some(GaussianSplattingMaskOp::Complement(
        Box::new(GaussianSplattingMaskOp::Complement(shape(0))),
    )));
    assert_eq!(shown(&GaussianSplattingMaskOp::parse("!!0")), shown(&expected));
}

#[test]
fn parse_rejects_malformed_text() {
    let open = GaussianSplattingMaskOp::parse("(");
    assert!(matches!(
        open,
        Err(MaskParseError { kind: MaskParseErrorKind::UnexpectedEnd, position: 1 })
    ));
    let unknown = GaussianSplattingMaskOp::parse("0 $ 1");
    assert!(matches!(
        unknown,
        Err(MaskParseError { kind: MaskParseErrorKind::UnexpectedCharacter, position: 2 })
    ));
}

#[test]
fn parse_rejects_leftover_input() {
    assert!(matches!(
        GaussianSplattingMaskOp::parse("0 )"),
        Err(MaskParseError { kind: MaskParseErrorKind::UnexpectedToken, position: 2 })
    ));
    assert!(matches!(
        GaussianSplattingMaskOp::parse("0 1"),
        Err(MaskParseError { kind: MaskParseErrorKind::UnexpectedToken, position: 2 })
    ));
    assert!(matches!(
        GaussianSplattingMaskOp::parse("0 |"),
        Err(MaskParseError { kind: MaskParseErrorKind::UnexpectedEnd, position: 3 })
    ));
}

#[test]
fn parse_rejects_index_too_large() {
    assert!(matches!(
        GaussianSplattingMaskOp::parse("1 | 99999999999999999999999"),
        Err(MaskParseError { kind: MaskParseErrorKind::NumberTooLarge, position: 4 })
    ));
}

#[test]
fn parse_full_precedence_and_parentheses() {
    let expected: Result<Option<GaussianSplattingMaskOp>, MaskParseError> = Ok(Some(GaussianSplattingMaskOp::Intersection(
        Box::new(GaussianSplattingMaskOp::Union(shape(0), shape(12))),
        Box::new(GaussianSplattingMaskOp::Difference(
            shape(3),
            Box::new(GaussianSplattingMaskOp::SymmetricDifference(
                Box::new(GaussianSplattingMaskOp::Complement(shape(4))),
                shape(5),
            )),
        )),
    )));
    assert_eq!(shown(&GaussianSplattingMaskOp::parse("(0|012) & 3 - !4 ^ 5")), shown(&expected));
}

#[test]
fn parse_ignores_whitespace_between_tokens() {
    let compact = GaussianSplattingMaskOp::parse("!(0|1)&2-3^4");
    let spaced = GaussianSplattingMaskOp::parse("  ! ( 0 |\t1 ) &\n2 - 3 ^ 4  ");
    assert!(compact.is_ok());
    assert_eq!(shown(&compact), shown(&spaced));
    assert_eq!(shown(&GaussianSplattingMaskOp::parse("10")), shown(&Ok(Some(GaussianSplattingMaskOp::Shape(10)))));
    assert!(GaussianSplattingMaskOp::parse("1 0").is_err());
}

#[test]
fn validate_shapes_reports_first_out_of_range_index() {
    let tree = GaussianSplattingMaskOp::parse("0 | 1 | 5").unwrap().unwrap();
    assert_eq!(tree.validate_shapes(3), Err(5));
    assert_eq!(tree.validate_shapes(6), Ok(()));
    let tree = GaussianSplattingMaskOp::parse("(7 - 1) | !5").unwrap().unwrap();
    assert_eq!(tree.validate_shapes(3), Err(7));
    assert_eq!(tree.validate_shapes(6), Err(7));
    assert_eq!(tree.validate_shapes(8), Ok(()));
}

#[test]
fn to_tree_refers_to_shape_data() {
    let shapes = vec!["a".to_string(), "b".to_string()];
    let op = GaussianSplattingMaskOp::parse("0 - !1").unwrap().unwrap();
    match op.to_tree(&shapes) {
        MaskOpTree::Difference(l, r) => {
            assert!(matches!(*l, MaskOpTree::Shape(s) if std::ptr::eq(s, &shapes[0])));
            match *r {
                MaskOpTree::Complement(x) => assert!(matches!(*x, MaskOpTree::Shape(s) if s == "b")),
                _ => panic!("expected a complement"),
            }
        }
        _ => panic!("expected a difference"),
    }
}

#[test]
fn parse_error_message_names_position() {
    let e = GaussianSplattingMaskOp::parse("0 $ 1").unwrap_err();
    assert_eq!(e.message(), "Failed to parse mask operation: unexpected character at position 2");
    let e = GaussianSplattingMaskOp::parse("(0").unwrap_err();
    assert_eq!(e.message(), "Failed to parse mask operation: unexpected end of input at position 2");
}

#[test]
fn check_mask_code_validates_after_parsing() {
    assert!(matches!(check_mask_code("  ", 0), Ok(None)));
    assert!(matches!(check_mask_code("0 & 1", 2), Ok(Some(_))));
    let e = check_mask_code("0 & 12", 2).unwrap_err();
    assert_eq!(e, MaskEditError::ShapeIndex(12));
    assert_eq!(e.message(), "Invalid shape index: 12");
    let e = check_mask_code("0 &", 2).unwrap_err();
    assert!(matches!(e, MaskEditError::Parse(MaskParseError { kind: MaskParseErrorKind::UnexpectedEnd, position: 3 })));
}

#[test]
fn parse_accepts_unicode_whitespace() {
    assert!(matches!(GaussianSplattingMaskOp::parse("\u{A0}"), Ok(None)));
    assert!(matches!(GaussianSplattingMaskOp::parse("\u{3000}\u{2028} \u{85}"), Ok(None)));
    assert_eq!(
        shown(&GaussianSplattingMaskOp::parse("0\u{A0}|\u{2003}1\u{A0}")),
        shown(&GaussianSplattingMaskOp::parse("0|1"))
    );
    assert!(GaussianSplattingMaskOp::parse("0 \u{200B} 1").is_err());
}
