//! End-to-end scenarios: parse an introspection dump and inspect the
//! generated source text.

use vipsgen::emit::generate_modules;
use vipsgen::model::ParamType;
use vipsgen::parse::{parse_dump, ParseError};

fn resize_dump() -> String {
    [
        "OPERATION:",
        "resize:VipsResize",
        "resize an image",
        "REQUIRED:",
        "in",
        "Image",
        "Input image",
        "VipsImage",
        "PARAM:",
        "scale",
        "Scale",
        "Scale image by this factor",
        "double:0:10:1",
        "PARAM:",
        "OUTPUT:out",
        "Output",
        "Output image",
        "VipsImage",
        "PARAM:",
        "OPTIONAL:",
    ]
    .join("\n")
}

fn thumbnail_dump() -> String {
    [
        "OPERATION:",
        "thumbnail:VipsThumbnail",
        "make a thumbnail",
        "REQUIRED:",
        "in",
        "Image",
        "Input image",
        "VipsImage",
        "PARAM:",
        "OUTPUT:out",
        "Output",
        "Output image",
        "VipsImage",
        "PARAM:",
        "OPTIONAL:",
        "strip",
        "Strip",
        "Strip all metadata",
        "bool:0",
        "PARAM:",
    ]
    .join("\n")
}

#[test]
fn resize_yields_single_wrapper() {
    let ops = parse_dump(&resize_dump()).unwrap();
    assert_eq!(ops.len(), 1);
    let op = &ops[0];
    assert_eq!(op.name, "resize");
    assert_eq!(op.vips_name, "resize");
    assert_eq!(op.vips_operation, "VipsResize");
    assert_eq!(op.required.len(), 2);
    assert_eq!(op.optional.len(), 0);
    assert_eq!(op.output.len(), 1);
    assert_eq!(op.required[0].name, "inp");
    assert_eq!(op.required[1].name, "scale");
    assert_eq!(op.output[0].name, "out");
    assert_eq!(
        op.declaration(false),
        "pub fn resize(inp: &VipsImage, scale: f64) -> Result<VipsImage>"
    );
    let body = op.body();
    assert_eq!(body.matches("pub fn ").count(), 1);
    assert!(!body.contains("Options"));
    assert!(!body.contains("_with_opts"));
    assert!(body.contains("bindings::vips_resize(inp_in, scale_in, &mut out_out, NULL)"));
    assert!(body.contains("Error::ResizeError"));
    assert!(body.contains("/// scale: `f64` -> Scale image by this factor"));
    assert!(body.contains("/// min: 0, max: 10, default: 1"));
    assert!(body.contains("/// returns `VipsImage` - Output image"));
}

#[test]
fn resize_param_counts_match_blocks() {
    let ops = parse_dump(&resize_dump()).unwrap();
    let op = &ops[0];
    // three required-section blocks were consumed, none optional
    assert_eq!(op.required.len() + op.output.len(), 3);
    assert_eq!(op.optional.len(), 0);
}

#[test]
fn optional_bool_gets_options_record() {
    let ops = parse_dump(&thumbnail_dump()).unwrap();
    assert_eq!(ops.len(), 1);
    let op = &ops[0];
    assert_eq!(op.optional.len(), 1);
    assert_eq!(op.optional[0].name, "strip");
    match &op.optional[0].param_type {
        ParamType::Bool { default } => assert_eq!(*default, false),
        _ => panic!("strip should be a bool parameter"),
    }
    let body = op.body();
    assert_eq!(body.matches("pub fn ").count(), 2);
    assert!(body.contains("pub fn thumbnail(inp: &VipsImage) -> Result<VipsImage>"));
    assert!(body.contains(
        "pub fn thumbnail_with_opts(inp: &VipsImage, thumbnail_options: &ThumbnailOptions) -> Result<VipsImage>"
    ));
    assert!(body.contains("pub struct ThumbnailOptions"));
    assert!(body.contains("pub strip: bool"));
    assert!(body.contains("strip: false"));
    // the by-name call passes the native key "strip" and a 0/1 encoding
    assert!(body.contains("let strip_in_name = utils::new_c_string(\"strip\")?;"));
    assert!(body.contains("let strip_in: i32 = if thumbnail_options.strip { 1 } else { 0 };"));
    assert!(body.contains("strip_in_name.as_ptr(), strip_in"));
}

#[test]
fn affine_substitutes_four_coefficients() {
    let dump = [
        "OPERATION:",
        "affine:VipsAffine",
        "affine transform of an image",
        "REQUIRED:",
        "in",
        "Image",
        "Input image",
        "VipsImage",
        "PARAM:",
        "OUTPUT:out",
        "Output",
        "Output image",
        "VipsImage",
        "PARAM:",
        "matrix",
        "Matrix",
        "Transformation matrix",
        "double:-1000000:1000000:0",
        "PARAM:",
        "OPTIONAL:",
    ]
    .join("\n");
    let ops = parse_dump(&dump).unwrap();
    let op = &ops[0];
    assert_eq!(op.required.len(), 5);
    assert_eq!(op.required[1].name, "a");
    assert_eq!(op.required[2].name, "b");
    assert_eq!(op.required[3].name, "c");
    assert_eq!(op.required[4].name, "d");
    assert_eq!(op.required[1].order, 2);
    assert_eq!(op.required[2].order, 3);
    assert_eq!(op.required[3].order, 4);
    assert_eq!(op.required[4].order, 5);
    for k in 1..5 {
        match &op.required[k].param_type {
            ParamType::Double { min, max, default } => {
                assert_eq!(min, "-inf");
                assert_eq!(max, "inf");
                assert_eq!(default, "0");
            }
            _ => panic!("synthesized coefficients must be floating-point"),
        }
    }
    assert_eq!(
        op.declaration(false),
        "pub fn affine(inp: &VipsImage, a: f64, b: f64, c: f64, d: f64) -> Result<VipsImage>"
    );
    let body = op.body();
    assert!(body.contains(
        "bindings::vips_affine(inp_in, &mut out_out, a_in, b_in, c_in, d_in, NULL)"
    ));
}

#[test]
fn enum_parameter_resolves_default_nickname() {
    let dump = [
        "OPERATION:",
        "smartcrop:VipsSmartcrop",
        "pick the attention region of an image",
        "REQUIRED:",
        "in",
        "Image",
        "Input image",
        "VipsImage",
        "PARAM:",
        "OUTPUT:out",
        "Output",
        "Output image",
        "VipsImage",
        "PARAM:",
        "OPTIONAL:",
        "interesting",
        "Interesting",
        "How to measure interestingness",
        "enum-VipsInteresting",
        "0:none:VIPS_INTERESTING_NONE",
        "1:centre:VIPS_INTERESTING_CENTRE",
        "2:entropy:VIPS_INTERESTING_ENTROPY",
        "1",
        "PARAM:",
    ]
    .join("\n");
    let ops = parse_dump(&dump).unwrap();
    let op = &ops[0];
    let body = op.body();
    assert!(body.contains("interesting: Interesting::Centre"));
    assert!(body.contains("pub interesting: Interesting"));
    assert!(body.contains("///  `Centre` -> VIPS_INTERESTING_CENTRE = 1 [DEFAULT]"));
    assert!(body.contains("///  `None` -> VIPS_INTERESTING_NONE = 0"));
    let enums = op.enumerations();
    assert_eq!(enums.len(), 1);
    assert!(enums[0].contains("pub enum Interesting"));
    assert!(enums[0].contains("#[derive(Copy, Clone, Debug, FromPrimitive)]"));
}

#[test]
fn enum_default_without_match_is_fatal() {
    let dump = [
        "OPERATION:",
        "smartcrop:VipsSmartcrop",
        "pick the attention region of an image",
        "REQUIRED:",
        "OPTIONAL:",
        "interesting",
        "Interesting",
        "How to measure interestingness",
        "enum-VipsInteresting",
        "0:none:VIPS_INTERESTING_NONE",
        "7",
        "PARAM:",
    ]
    .join("\n");
    assert!(matches!(parse_dump(&dump), Err(ParseError::BadEnumDefault)));
}

#[test]
fn blocklisted_operation_emits_nothing() {
    let kept = resize_dump();
    let blocked = [
        "OPERATION:",
        "crop:crop",
        "crop an image",
        "REQUIRED:",
        "in",
        "Image",
        "Input image",
        "VipsImage",
        "PARAM:",
        "OPTIONAL:",
    ]
    .join("\n");
    let both = format!("{}\n{}", kept, blocked);
    let ops_with = parse_dump(&both).unwrap();
    let ops_without = parse_dump(&kept).unwrap();
    assert_eq!(ops_with.len(), 2);
    let (ops_module_a, err_module_a) = generate_modules(&ops_with);
    let (ops_module_b, err_module_b) = generate_modules(&ops_without);
    assert_eq!(ops_module_a, ops_module_b);
    assert_eq!(err_module_a, err_module_b);
    assert!(!ops_module_a.contains("pub fn crop"));
    assert!(!err_module_a.contains("CropError"));
}

#[test]
fn generation_is_deterministic() {
    let dump = format!("{}\n{}", thumbnail_dump(), resize_dump());
    let ops1 = parse_dump(&dump).unwrap();
    let ops2 = parse_dump(&dump).unwrap();
    let (m1, e1) = generate_modules(&ops1);
    let (m2, e2) = generate_modules(&ops2);
    assert_eq!(m1, m2);
    assert_eq!(e1, e2);
}

#[test]
fn duplicate_enumerations_are_emitted_once() {
    let one_op = |name: &str, class: &str| -> String {
        [
            "OPERATION:",
            &format!("{}:{}", name, class),
            "an operation",
            "REQUIRED:",
            "mode",
            "Mode",
            "Pick a mode",
            "enum-VipsMode",
            "0:plain:VIPS_MODE_PLAIN",
            "1:fancy:VIPS_MODE_FANCY",
            "0",
            "PARAM:",
            "OPTIONAL:",
        ]
        .join("\n")
    };
    let dump = format!("{}\n{}", one_op("first", "VipsFirst"), one_op("second", "VipsSecond"));
    let ops = parse_dump(&dump).unwrap();
    let (ops_module, _) = generate_modules(&ops);
    assert_eq!(ops_module.matches("pub enum Mode").count(), 1);
}

#[test]
fn error_module_lists_fixed_and_per_operation_variants() {
    let ops = parse_dump(&resize_dump()).unwrap();
    let (_, err_module) = generate_modules(&ops);
    assert!(err_module.contains("InitializationError(&'static str)"));
    assert!(err_module.contains("IOError(&'static str)"));
    assert!(err_module.contains("LinearError,"));
    assert!(err_module.contains("GetpointError,"));
    assert!(err_module.contains("ResizeError,"));
    assert!(err_module.contains(
        "Error::ResizeError => write!(f, \"vips error: ResizeError. Check error buffer for more details\"),"
    ));
}

#[test]
fn match_operation_is_renamed() {
    let dump = [
        "OPERATION:",
        "match:VipsMatch",
        "first-order match of two images",
        "REQUIRED:",
        "OPTIONAL:",
    ]
    .join("\n");
    let ops = parse_dump(&dump).unwrap();
    assert_eq!(ops[0].name, "matches");
    assert_eq!(ops[0].vips_name, "match");
}

#[test]
fn icc_string_option_defaults_to_srgb() {
    let dump = [
        "OPERATION:",
        "icc_import:VipsIccImport",
        "import from device with ICC profile",
        "REQUIRED:",
        "in",
        "Image",
        "Input image",
        "VipsImage",
        "PARAM:",
        "OUTPUT:out",
        "Output",
        "Output image",
        "VipsImage",
        "PARAM:",
        "OPTIONAL:",
        "output_profile",
        "Output profile",
        "Filename to load ICC profile from",
        "string",
        "PARAM:",
    ]
    .join("\n");
    let ops = parse_dump(&dump).unwrap();
    let body = ops[0].body();
    assert!(body.contains("output_profile: String::from(\"sRGB\")"));
}

#[test]
fn unsupported_type_descriptor_is_fatal() {
    let dump = [
        "OPERATION:",
        "weird:VipsWeird",
        "an operation with an unknown kind",
        "REQUIRED:",
        "x",
        "X",
        "Mystery value",
        "quaternion:0:1:0",
        "PARAM:",
        "OPTIONAL:",
    ]
    .join("\n");
    assert!(matches!(parse_dump(&dump), Err(ParseError::UnsupportedType)));
}

#[test]
fn malformed_numbers_and_structure_are_fatal() {
    let bad_number = [
        "OPERATION:",
        "op:VipsOp",
        "desc",
        "REQUIRED:",
        "x",
        "X",
        "A number",
        "int:low:10:0",
        "PARAM:",
        "OPTIONAL:",
    ]
    .join("\n");
    assert!(matches!(parse_dump(&bad_number), Err(ParseError::BadNumber)));

    let no_optional = ["OPERATION:", "op:VipsOp", "desc", "REQUIRED:"].join("\n");
    assert!(matches!(parse_dump(&no_optional), Err(ParseError::MissingOptional)));

    let no_required = ["OPERATION:", "op:VipsOp", "desc"].join("\n");
    assert!(matches!(parse_dump(&no_required), Err(ParseError::MissingRequired)));

    let stray = ["resize:VipsResize"].join("\n");
    assert!(matches!(parse_dump(&stray), Err(ParseError::StrayLine)));

    let short_block = [
        "OPERATION:",
        "op:VipsOp",
        "desc",
        "REQUIRED:",
        "x",
        "X",
        "PARAM:",
        "OPTIONAL:",
    ]
    .join("\n");
    assert!(matches!(parse_dump(&short_block), Err(ParseError::TruncatedBlock)));

    let no_group = ["OPERATION:", "op", "desc", "REQUIRED:", "OPTIONAL:"].join("\n");
    assert!(matches!(parse_dump(&no_group), Err(ParseError::MalformedHeader)));
}

#[test]
fn bad_float_bound_is_fatal() {
    let dump = [
        "OPERATION:",
        "op:VipsOp",
        "desc",
        "REQUIRED:",
        "x",
        "X",
        "A factor",
        "double:low:1:0",
        "PARAM:",
        "OPTIONAL:",
    ]
    .join("\n");
    assert!(matches!(parse_dump(&dump), Err(ParseError::BadFloat)));
}

#[test]
fn short_enum_entry_is_fatal() {
    let dump = [
        "OPERATION:",
        "op:VipsOp",
        "desc",
        "REQUIRED:",
        "OPTIONAL:",
        "mode",
        "Mode",
        "Pick a mode",
        "enum-VipsMode",
        "0:plain",
        "0",
        "PARAM:",
    ]
    .join("\n");
    assert!(matches!(parse_dump(&dump), Err(ParseError::BadEnumEntry)));
}

#[test]
fn too_many_required_parameters_is_fatal() {
    let mut lines = vec![
        "OPERATION:".to_string(),
        "op:VipsOp".to_string(),
        "desc".to_string(),
        "REQUIRED:".to_string(),
    ];
    for k in 0..257 {
        lines.push(format!("x{}", k));
        lines.push("X".to_string());
        lines.push("A number".to_string());
        lines.push("int:0:10:0".to_string());
        lines.push("PARAM:".to_string());
    }
    lines.push("OPTIONAL:".to_string());
    let dump = lines.join("\n");
    assert!(matches!(parse_dump(&dump), Err(ParseError::TooManyParameters)));
}

#[test]
fn operation_names_are_snake_cased() {
    let dump = [
        "OPERATION:",
        "addAlpha:VipsAddAlpha",
        "append an alpha channel",
        "REQUIRED:",
        "OPTIONAL:",
    ]
    .join("\n");
    let ops = parse_dump(&dump).unwrap();
    assert_eq!(ops[0].name, "add_alpha");
    assert_eq!(ops[0].vips_name, "addAlpha");
}

#[test]
fn optional_arrays_use_boxed_wrappers() {
    let dump = [
        "OPERATION:",
        "gaussblur:VipsGaussblur",
        "gaussian blur of an image",
        "REQUIRED:",
        "in",
        "Image",
        "Input image",
        "VipsImage",
        "PARAM:",
        "OUTPUT:out",
        "Output",
        "Output image",
        "VipsImage",
        "PARAM:",
        "OPTIONAL:",
        "background",
        "Background",
        "Background colour",
        "array of double",
        "PARAM:",
        "precision",
        "Precision",
        "How many bits to use",
        "int:0:100:0",
        "PARAM:",
    ]
    .join("\n");
    let ops = parse_dump(&dump).unwrap();
    let body = ops[0].body();
    assert!(body.contains("pub background: Vec<f64>"));
    assert!(body.contains("background: Vec::new()"));
    assert!(body.contains(
        "let background_wrapper = utils::VipsArrayDoubleWrapper::from(&gaussblur_options.background[..]);"
    ));
    assert!(body.contains("let precision_in: i32 = gaussblur_options.precision;"));
    assert!(body.contains("precision: i32::from(0)"));
}

#[test]
fn empty_dump_parses_to_no_operations() {
    let ops = parse_dump("").unwrap();
    assert_eq!(ops.len(), 0);
    let ops = parse_dump("\n\n\n").unwrap();
    assert_eq!(ops.len(), 0);
}

#[test]
fn array_image_threads_length_into_next_image() {
    let dump = [
        "OPERATION:",
        "bandjoin:VipsBandjoin",
        "bandwise join a set of images",
        "REQUIRED:",
        "in",
        "Input",
        "Array of input images",
        "array of images",
        "PARAM:",
        "OUTPUT:out",
        "Output",
        "Output image",
        "VipsImage",
        "PARAM:",
        "OPTIONAL:",
    ]
    .join("\n");
    let ops = parse_dump(&dump).unwrap();
    let body = ops[0].body();
    // the output image's native slot passes the leading array's length
    assert!(body.contains("bindings::vips_bandjoin(inp_in, &mut out_out, inp.len() as i32, NULL)"));
}
