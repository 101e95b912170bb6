use vertex_layout::ElementType;
use vertex_layout::FieldDecl;
use vertex_layout::GenError;
use vertex_layout::QueryError;
use vertex_layout::TypeDecl;
use vertex_layout::VertexDescriptor;
use vertex_layout::classify;
use vertex_layout::extract_fields;
use vertex_layout::parse_type_decl;

fn array_field(name: &str, elem: &str, len: u32) -> FieldDecl {
    FieldDecl {
        name: Some(name.to_owned()),
        ty: TypeDecl::Array { elem: elem.to_owned(), len },
    }
}

fn expect_gen_err(r: Result<VertexDescriptor, GenError>) -> GenError {
    match r {
        Err(e) => e,
        Ok(_) => panic!("expected generation to fail"),
    }
}

fn vertex_descriptor() -> VertexDescriptor {
    let decls = vec![
        array_field("position", "f32", 3),
        array_field("texture", "f32", 2),
        array_field("normal", "f32", 3),
    ];
    VertexDescriptor::generate(decls).unwrap()
}

#[test]
fn test_size() {
    let vertex = vertex_descriptor();
    assert_eq!(vertex.element_size(0).unwrap(), 3);
    assert_eq!(vertex.element_size(1).unwrap(), 2);
    assert_eq!(vertex.element_size(2).unwrap(), 3);
}

#[test]
fn test_type() {
    let vertex = vertex_descriptor();
    assert_eq!(vertex.element_type(0).unwrap(), ElementType::Float);
    assert_eq!(vertex.element_type(1).unwrap(), ElementType::Float);
    assert_eq!(vertex.element_type(2).unwrap(), ElementType::Float);
}

#[test]
fn test_stride() {
    let vertex = vertex_descriptor();
    assert_eq!(vertex.element_stride(), 32);
}

#[test]
fn test_pointer() {
    let vertex = vertex_descriptor();
    assert_eq!(vertex.element_pointer(0).unwrap(), 0);
    assert_eq!(vertex.element_pointer(1).unwrap(), 12);
    assert_eq!(vertex.element_pointer(2).unwrap(), 20);
}

#[test]
fn test_field_position() {
    let vertex = vertex_descriptor();
    assert_eq!(vertex.field_position("position").unwrap(), 0);
    assert_eq!(vertex.field_position("texture").unwrap(), 1);
    assert_eq!(vertex.field_position("normal").unwrap(), 2);
}

#[test]
fn test_unknown_field_name() {
    let vertex = vertex_descriptor();
    assert_eq!(
        vertex.field_position("tangent"),
        Err(QueryError::InvalidFieldName)
    );
    assert_eq!(vertex.field_position(""), Err(QueryError::InvalidFieldName));
}

#[test]
fn test_out_of_range_index() {
    let vertex = vertex_descriptor();
    assert_eq!(vertex.element_size(3), Err(QueryError::InvalidIndex));
    assert_eq!(vertex.element_type(3), Err(QueryError::InvalidIndex));
    assert_eq!(vertex.element_pointer(3), Err(QueryError::InvalidIndex));
    assert_eq!(vertex.element_size(usize::MAX), Err(QueryError::InvalidIndex));
    assert_eq!(vertex.element_type(usize::MAX), Err(QueryError::InvalidIndex));
    assert_eq!(
        vertex.element_pointer(usize::MAX),
        Err(QueryError::InvalidIndex)
    );
}

#[test]
fn test_classify_supported() {
    assert_eq!(classify("u8").unwrap(), ElementType::UnsignedByte);
    assert_eq!(classify("i8").unwrap(), ElementType::Byte);
    assert_eq!(classify("u16").unwrap(), ElementType::UnsignedShort);
    assert_eq!(classify("i16").unwrap(), ElementType::Short);
    assert_eq!(classify("f32").unwrap(), ElementType::Float);
}

#[test]
fn test_classify_unsupported() {
    for name in ["u32", "i32", "u64", "i64", "usize", "isize", "f64", "bool", "vec3"] {
        assert_eq!(
            classify(name),
            Err(GenError::UnsupportedType(name.to_owned()))
        );
    }
}

#[test]
fn test_byte_width() {
    assert_eq!(ElementType::UnsignedByte.byte_width(), 1);
    assert_eq!(ElementType::Byte.byte_width(), 1);
    assert_eq!(ElementType::UnsignedShort.byte_width(), 2);
    assert_eq!(ElementType::Short.byte_width(), 2);
    assert_eq!(ElementType::Float.byte_width(), 4);
}

#[test]
fn test_generate_rejects_unsupported_scalar() {
    let decls = vec![
        array_field("position", "f32", 3),
        array_field("weight", "f64", 1),
    ];
    assert_eq!(
        expect_gen_err(VertexDescriptor::generate(decls)),
        GenError::UnsupportedType("f64".to_owned())
    );
}

#[test]
fn test_generate_rejects_non_array_field() {
    let decls = vec![
        array_field("position", "f32", 3),
        FieldDecl {
            name: Some("test".to_owned()),
            ty: TypeDecl::Scalar("u32".to_owned()),
        },
    ];
    assert_eq!(
        expect_gen_err(VertexDescriptor::generate(decls)),
        GenError::NonArrayField("test".to_owned())
    );
}

#[test]
fn test_generate_rejects_unnamed_field() {
    let decls = vec![
        array_field("position", "f32", 3),
        FieldDecl {
            name: None,
            ty: TypeDecl::Array { elem: "f32".to_owned(), len: 2 },
        },
    ];
    assert_eq!(
        expect_gen_err(VertexDescriptor::generate(decls)),
        GenError::UnnamedField(1)
    );
}

#[test]
fn test_generate_reports_first_failure() {
    let decls = vec![
        FieldDecl {
            name: None,
            ty: TypeDecl::Array { elem: "f32".to_owned(), len: 2 },
        },
        FieldDecl {
            name: Some("test".to_owned()),
            ty: TypeDecl::Scalar("u32".to_owned()),
        },
    ];
    assert_eq!(
        expect_gen_err(VertexDescriptor::generate(decls)),
        GenError::UnnamedField(0)
    );
}

#[test]
fn test_extract_fields_metadata() {
    let decls = vec![array_field("color", "u8", 4), array_field("position", "i16", 3)];
    let fs = extract_fields(&decls).unwrap();
    assert_eq!(fs.len(), 2);
    assert_eq!(fs[0].name, "color");
    assert_eq!(fs[0].element_count, 4);
    assert_eq!(fs[0].scalar_type, ElementType::UnsignedByte);
    assert_eq!(fs[1].name, "position");
    assert_eq!(fs[1].element_count, 3);
    assert_eq!(fs[1].scalar_type, ElementType::Short);
}

#[test]
fn test_mixed_scalar_layout() {
    let decls = vec![
        array_field("color", "u8", 4),
        array_field("position", "i16", 3),
        array_field("cell", "u16", 2),
        array_field("sign", "i8", 1),
        array_field("depth", "f32", 1),
    ];
    let d = VertexDescriptor::generate(decls).unwrap();
    assert_eq!(d.element_pointer(0).unwrap(), 0);
    assert_eq!(d.element_pointer(1).unwrap(), 4);
    assert_eq!(d.element_pointer(2).unwrap(), 10);
    assert_eq!(d.element_pointer(3).unwrap(), 14);
    assert_eq!(d.element_pointer(4).unwrap(), 15);
    assert_eq!(d.element_stride(), 19);
    assert_eq!(d.element_type(0).unwrap(), ElementType::UnsignedByte);
    assert_eq!(d.element_type(1).unwrap(), ElementType::Short);
    assert_eq!(d.element_type(2).unwrap(), ElementType::UnsignedShort);
    assert_eq!(d.element_type(3).unwrap(), ElementType::Byte);
    assert_eq!(d.element_type(4).unwrap(), ElementType::Float);
}

#[test]
fn test_pointer_recurrence() {
    let decls = vec![
        array_field("color", "u8", 4),
        array_field("position", "i16", 3),
        array_field("cell", "u16", 2),
    ];
    let d = VertexDescriptor::generate(decls).unwrap();
    assert_eq!(d.element_pointer(0).unwrap(), 0);
    for i in 1..3 {
        let prev = d.element_pointer(i - 1).unwrap();
        let count = d.element_size(i - 1).unwrap() as u64;
        let width = d.element_type(i - 1).unwrap().byte_width() as u64;
        assert_eq!(d.element_pointer(i).unwrap(), prev + count * width);
    }
}

#[test]
fn test_empty_record() {
    let d = VertexDescriptor::generate(Vec::new()).unwrap();
    assert_eq!(d.element_stride(), 0);
    assert_eq!(d.element_size(0), Err(QueryError::InvalidIndex));
    assert_eq!(d.element_type(0), Err(QueryError::InvalidIndex));
    assert_eq!(d.element_pointer(0), Err(QueryError::InvalidIndex));
    assert_eq!(d.field_position("position"), Err(QueryError::InvalidFieldName));
}

#[test]
fn test_repeated_calls_agree() {
    let vertex = vertex_descriptor();
    assert_eq!(vertex.element_size(1), vertex.element_size(1));
    assert_eq!(vertex.element_type(1), vertex.element_type(1));
    assert_eq!(vertex.element_pointer(1), vertex.element_pointer(1));
    assert_eq!(vertex.element_stride(), vertex.element_stride());
    assert_eq!(vertex.field_position("normal"), vertex.field_position("normal"));
    assert_eq!(vertex.element_size(9), vertex.element_size(9));
    assert_eq!(vertex.field_position("missing"), vertex.field_position("missing"));
}

#[test]
fn test_parse_array_type() {
    assert_eq!(
        parse_type_decl("[f32;3]"),
        TypeDecl::Array { elem: "f32".to_owned(), len: 3 }
    );
    assert_eq!(
        parse_type_decl("[u8;255]"),
        TypeDecl::Array { elem: "u8".to_owned(), len: 255 }
    );
    assert_eq!(
        parse_type_decl("[i16;0]"),
        TypeDecl::Array { elem: "i16".to_owned(), len: 0 }
    );
    assert_eq!(
        parse_type_decl("[f32;4294967295]"),
        TypeDecl::Array { elem: "f32".to_owned(), len: u32::MAX }
    );
}

#[test]
fn test_parse_non_array_type() {
    let texts = [
        "u32",
        "f32",
        "",
        "[f32]",
        "[;3]",
        "[f32;]",
        "[f32;2x]",
        "[f32;4294967296]",
        "Vec<f32>",
        "[[f32;2];2]",
        "[f32;3",
    ];
    for text in texts {
        assert_eq!(parse_type_decl(text), TypeDecl::Scalar(text.to_owned()));
    }
}

#[test]
fn test_generate_from_parsed_text() {
    let decls = vec![
        FieldDecl { name: Some("position".to_owned()), ty: parse_type_decl("[f32;3]") },
        FieldDecl { name: Some("texture".to_owned()), ty: parse_type_decl("[f32;2]") },
        FieldDecl { name: Some("normal".to_owned()), ty: parse_type_decl("[f32;3]") },
    ];
    let d = VertexDescriptor::generate(decls).unwrap();
    assert_eq!(d.element_stride(), 32);
    assert_eq!(d.element_pointer(2).unwrap(), 20);
}

#[test]
fn test_largest_element_count() {
    let decls = vec![array_field("bulk", "f32", u32::MAX)];
    let d = VertexDescriptor::generate(decls).unwrap();
    assert_eq!(d.element_size(0).unwrap(), u32::MAX);
    assert_eq!(d.element_stride(), u32::MAX as u64 * 4);
    assert_eq!(d.element_pointer(0).unwrap(), 0);
}
