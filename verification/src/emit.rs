//! The code emitter: walks parsed operations and the type model to produce
//! the generated source text. Every exec function is pinned to a spec-level
//! text function, so generation is a mathematical function of the parsed
//! catalog: byte-identical input gives byte-identical output.

use vstd::prelude::*;
use crate::model::{
    param_views, wf_operation, wf_param, Operation, OperationS, ParamType, ParamTypeS, Parameter,
    ParameterS,
};
use crate::names::{class_of, snake_of, to_class_case, to_snake_case};
use crate::text::{contains_str, contains_sub, join_strings, join_with, views_of};
use crate::typemodel::{
    default_text, param_type_text, struct_type_text, type_doc_text, vips_in_type_text,
    vips_out_type_text,
};

verus! {

/// The expression that converts one output slot's native value into its
/// return representation.
pub open spec fn as_out_param_text(p: ParameterS) -> Seq<char> {
    match p.param_type {
        ParamTypeS::ArrayByte => "utils::new_byte_array("@ + p.name + "_out, "@ + p.name
            + "_buf_size)"@,
        ParamTypeS::VipsImage { .. } => "VipsImage{ ctx: "@ + p.name + "_out }"@,
        ParamTypeS::VipsInterpolate => "VipsInterpolate{ ctx: "@ + p.name + "_out }"@,
        ParamTypeS::VipsBlob => "VipsBlob{ ctx: "@ + p.name + "_out }.into()"@,
        ParamTypeS::Int { .. } | ParamTypeS::UInt { .. } | ParamTypeS::Double { .. } => p.name
            + "_out"@,
        ParamTypeS::Bool { .. } => p.name + "_out != 0"@,
        ParamTypeS::ArrayInt => "utils::new_int_array("@ + p.name + "_out, "@ + p.name
            + "_array_size)"@,
        ParamTypeS::ArrayDouble => "utils::new_double_array("@ + p.name + "_out, "@ + p.name
            + "_array_size)"@,
        _ => "*"@ + p.name + "_out"@,
    }
}

/// The documentation line of a parameter in a signature, plus its kind's
/// fragment when it has one.
pub open spec fn param_doc_text(p: ParameterS) -> Seq<char> {
    let main = "/// "@ + p.name + ": `"@ + param_type_text(p.param_type) + "` -> "@
        + p.description;
    if type_doc_text(p.param_type).len() > 0 {
        main + "\n"@ + type_doc_text(p.param_type)
    } else {
        main
    }
}

/// The documentation line of a parameter as an options-record field.
pub open spec fn doc_struct_text(p: ParameterS) -> Seq<char> {
    let main = "/// "@ + p.name + ": `"@ + struct_type_text(p.param_type) + "` -> "@
        + p.description;
    if type_doc_text(p.param_type).len() > 0 {
        main + "\n"@ + type_doc_text(p.param_type)
    } else {
        main
    }
}

/// The statement that binds a required parameter's native representation.
pub open spec fn declare_in_variable_text(p: ParameterS) -> Seq<char> {
    let t = vips_in_type_text(p.param_type, false);
    match p.param_type {
        ParamTypeS::Int { .. } | ParamTypeS::UInt { .. } | ParamTypeS::Double { .. } => "let "@
            + p.name + "_in: "@ + t + " = "@ + p.name + ";"@,
        ParamTypeS::Str => "let "@ + p.name + "_in: "@ + t + " = utils::new_c_string("@ + p.name
            + ")?;"@,
        ParamTypeS::Bool { .. } => "let "@ + p.name + "_in: "@ + t + " = if "@ + p.name
            + " { 1 } else { 0 };"@,
        ParamTypeS::ArrayInt | ParamTypeS::ArrayDouble => "let "@ + p.name + "_in: "@ + t + " = "@
            + p.name + ".as_mut_ptr();"@,
        ParamTypeS::ArrayByte => "let "@ + p.name + "_in: "@ + t + " = "@ + p.name
            + ".as_ptr() as "@ + t + ";"@,
        ParamTypeS::ArrayImage => "let "@ + p.name + "_in: "@ + t + " = "@ + p.name
            + ".iter().map(|v| v.ctx).collect::<Vec<_>>().as_mut_ptr();"@,
        ParamTypeS::VipsInterpolate | ParamTypeS::VipsImage { .. } | ParamTypeS::VipsBlob => "let "@
            + p.name + "_in: "@ + t + " = "@ + p.name + ".ctx;"@,
        ParamTypeS::Enum { .. } => "let "@ + p.name + "_in: "@ + t + " = "@ + p.name + " as i32;"@,
    }
}

/// The statement that binds an optional parameter's native representation
/// out of the options record.
pub open spec fn declare_in_variable_optional_text(p: ParameterS, opt_name: Seq<char>) -> Seq<
    char,
> {
    let t = vips_in_type_text(p.param_type, true);
    match p.param_type {
        ParamTypeS::Int { .. } | ParamTypeS::UInt { .. } | ParamTypeS::Double { .. } => "let "@
            + p.name + "_in: "@ + t + " = "@ + opt_name + "_options."@ + p.name + ";"@,
        ParamTypeS::Str => "let "@ + p.name + "_in: "@ + t + " = utils::new_c_string(&"@ + opt_name
            + "_options."@ + p.name + ")?;"@,
        ParamTypeS::Bool { .. } => "let "@ + p.name + "_in: "@ + t + " = if "@ + opt_name
            + "_options."@ + p.name + " { 1 } else { 0 };"@,
        ParamTypeS::ArrayDouble | ParamTypeS::ArrayImage | ParamTypeS::ArrayInt => "let "@ + p.name
            + "_wrapper = "@ + t + "::from(&"@ + opt_name + "_options."@ + p.name
            + "[..]); \nlet "@ + p.name + "_in = "@ + p.name + "_wrapper.ctx;"@,
        ParamTypeS::ArrayByte => "let "@ + p.name + "_in: "@ + t + " = "@ + opt_name + "_options."@
            + p.name + ".as_mut_ptr();"@,
        ParamTypeS::VipsBlob | ParamTypeS::VipsImage { .. } | ParamTypeS::VipsInterpolate => "let "@
            + p.name + "_in: "@ + t + " = "@ + opt_name + "_options."@ + p.name + ".ctx;"@,
        ParamTypeS::Enum { .. } => "let "@ + p.name + "_in: "@ + t + " = "@ + opt_name
            + "_options."@ + p.name + " as i32;"@,
    }
}

/// The statement that binds an optional parameter's native string key.
pub open spec fn declare_opt_name_text(p: ParameterS) -> Seq<char> {
    "let "@ + p.name + "_in_name = utils::new_c_string(\""@ + p.vips_name + "\")?;"@
}

/// The trailing key/value argument pair of one optional parameter.
pub open spec fn opt_param_pair_text(p: ParameterS) -> Seq<char> {
    let init = match p.param_type {
        ParamTypeS::Str => p.name + "_in.as_ptr()"@,
        _ => p.name + "_in"@,
    };
    p.name + "_in_name.as_ptr(), "@ + init
}

/// The statement that binds an output slot's native variable.
pub open spec fn declare_out_variable_text(p: ParameterS) -> Seq<char> {
    let t = vips_out_type_text(p.param_type);
    match p.param_type {
        ParamTypeS::ArrayByte => "let mut "@ + p.name + "_buf_size: u64 = 0;\nlet mut "@ + p.name
            + "_out: "@ + t + " = null_mut();"@,
        ParamTypeS::Int { .. } | ParamTypeS::Double { .. } | ParamTypeS::UInt { .. } => "let mut "@
            + p.name + "_out: "@ + t + " = "@ + default_text(p.param_type) + ";"@,
        ParamTypeS::ArrayDouble | ParamTypeS::ArrayInt | ParamTypeS::ArrayImage => "let mut "@
            + p.name + "_array_size: usize = 0;\nlet mut "@ + p.name + "_out: "@ + t
            + " = null_mut();"@,
        ParamTypeS::Bool { .. } => "let mut "@ + p.name + "_out: "@ + t + " = 0;"@,
        _ => "let mut "@ + p.name + "_out: "@ + t + " = null_mut();"@,
    }
}

/// One options-record field with its default value. A string field whose
/// description names an ICC color-profile context defaults to the sRGB
/// profile instead of the empty string.
pub open spec fn param_default_text(p: ParameterS) -> Seq<char> {
    if p.param_type is Str && contains_sub(p.description, "ICC"@) {
        p.name + ": String::from(\"sRGB\")"@
    } else {
        p.name + ": "@ + default_text(p.param_type)
    }
}

/// One options-record field declaration.
pub open spec fn struct_declaration_text(p: ParameterS) -> Seq<char> {
    p.name + ": "@ + struct_type_text(p.param_type)
}

/// One signature parameter declaration.
pub open spec fn param_declaration_text(p: ParameterS) -> Seq<char> {
    p.name + ": "@ + param_type_text(p.param_type)
}

/// The parameter documentation lines of an operation: its summary first.
pub open spec fn doc_base_text(op: OperationS) -> Seq<char> {
    "/// "@ + op.description + "\n"@ + join_with(
        op.required.map_values(|p: ParameterS| param_doc_text(p)),
        "\n"@,
    )
}

/// The documentation line naming the options parameter.
pub open spec fn doc_optional_text(op: OperationS) -> Seq<char> {
    "/// "@ + op.name + "_options: `&"@ + class_of(op.name)
        + "Options` -> optional arguments"@
}

/// The documentation of the return value: nothing, one value, or a tuple.
pub open spec fn doc_returns_text(op: OperationS) -> Seq<char> {
    if op.output.len() == 1 {
        "/// returns `"@ + struct_type_text(op.output[0].param_type) + "` - "@
            + op.output[0].description
    } else if op.output.len() > 1 {
        "/// Tuple (\n"@ + join_with(
            op.output.map_values(
                |o: ParameterS| "/// "@ + struct_type_text(o.param_type) + " - "@ + o.description,
            ),
            "\n"@,
        ) + "\n///)"@
    } else {
        Seq::empty()
    }
}

/// The full documentation block of one emitted function.
pub open spec fn op_doc_text(op: OperationS, with_optional: bool) -> Seq<char> {
    if op.optional.len() > 0 && with_optional {
        doc_base_text(op) + "\n"@ + doc_optional_text(op) + "\n"@ + doc_returns_text(op)
    } else {
        doc_base_text(op) + "\n"@ + doc_returns_text(op)
    }
}

/// The options record of an operation: one field per optional parameter and
/// a default-value constructor.
pub open spec fn struct_options_text(op: OperationS) -> Seq<char> {
    "/// Options for "@ + op.name + " operation\n#[derive(Clone, Debug)]\npub struct "@ + class_of(
        op.name,
    ) + "Options {\n"@ + join_with(
        op.optional.map_values(
            |p: ParameterS| doc_struct_text(p) + "\npub "@ + struct_declaration_text(p),
        ),
        ",\n"@,
    ) + "\n}\n\nimpl std::default::Default for "@ + class_of(op.name)
        + "Options {\n    fn default() -> Self {\n        "@ + class_of(op.name)
        + "Options {\n"@ + join_with(
        op.optional.map_values(|p: ParameterS| param_default_text(p)),
        ",\n"@,
    ) + "\n        }\n    }\n}\n"@
}

/// The native-variable bindings of one emitted function's body.
pub open spec fn get_variables_text(op: OperationS, with_optional: bool) -> Seq<char> {
    join_with(op.required.map_values(|p: ParameterS| declare_in_variable_text(p)), "\n"@) + "\n"@
        + join_with(op.output.map_values(|p: ParameterS| declare_out_variable_text(p)), "\n"@)
        + "\n"@ + if with_optional {
        join_with(
            op.optional.map_values(
                |p: ParameterS| declare_in_variable_optional_text(p, snake_of(op.name)) + "\n"@
                    + declare_opt_name_text(p),
            ),
            "\n"@,
        ) + "\n"@
    } else {
        Seq::empty()
    }
}

/// One call-site argument: a required input's representation, or an output
/// slot's out-pointer, paired with a length where the native convention
/// wants one.
pub open spec fn call_arg_text(is_output: bool, p: ParameterS) -> Seq<char> {
    if is_output {
        match p.param_type {
            ParamTypeS::ArrayByte => "&mut "@ + p.name + "_out, &mut "@ + p.name + "_buf_size"@,
            ParamTypeS::ArrayInt | ParamTypeS::ArrayDouble | ParamTypeS::ArrayImage => "&mut "@
                + p.name + "_out, &mut "@ + p.name + "_array_size"@,
            ParamTypeS::VipsImage { prev: Option::Some(prev) } => "&mut "@ + p.name + "_out, "@
                + prev + ".len() as i32"@,
            _ => "&mut "@ + p.name + "_out"@,
        }
    } else {
        match p.param_type {
            ParamTypeS::ArrayInt | ParamTypeS::ArrayDouble => p.name + "_in, "@ + p.name
                + ".len() as i32"@,
            ParamTypeS::ArrayImage => p.name + "_in"@,
            ParamTypeS::ArrayByte => p.name + "_in, "@ + p.name + ".len() as u64"@,
            ParamTypeS::Enum { .. } => p.name + "_in.try_into().unwrap()"@,
            ParamTypeS::Str => p.name + "_in.as_ptr()"@,
            _ => p.name + "_in"@,
        }
    }
}

/// The required inputs and output slots interleaved in header order:
/// ascending by order slot, a required input before an output on a tie.
pub open spec fn tagged_args(req: Seq<ParameterS>, out: Seq<ParameterS>, i: int, j: int) -> Seq<
    Seq<char>,
>
    decreases req.len() - i + (out.len() - j),
{
    if i < 0 || j < 0 || i > req.len() || j > out.len() {
        Seq::empty()
    } else if i == req.len() && j == out.len() {
        Seq::empty()
    } else if i < req.len() && (j == out.len() || req[i].order <= out[j].order) {
        seq![call_arg_text(false, req[i])] + tagged_args(req, out, i + 1, j)
    } else {
        seq![call_arg_text(true, out[j])] + tagged_args(req, out, i, j + 1)
    }
}

/// The full argument list of the native call, with each optional
/// parameter's key/value pair appended in the by-name form.
pub open spec fn get_params_text(op: OperationS, with_optional: bool) -> Seq<char> {
    let merged = join_with(tagged_args(op.required, op.output, 0, 0), ", "@);
    if with_optional {
        merged + ","@ + join_with(
            op.optional.map_values(|p: ParameterS| opt_param_pair_text(p)),
            ", "@,
        )
    } else {
        merged
    }
}

/// The value an emitted function returns on success: nothing, one converted
/// output, or a tuple of them.
pub open spec fn out_result_text(op: OperationS) -> Seq<char> {
    if op.output.len() > 1 {
        "("@ + join_with(op.output.map_values(|p: ParameterS| as_out_param_text(p)), ","@) + ")"@
    } else if op.output.len() == 0 {
        "()"@
    } else {
        as_out_param_text(op.output[0])
    }
}

/// The body of one emitted function: bind representations, call the native
/// operation, convert the response.
pub open spec fn method_body_text(op: OperationS, with_optional: bool) -> Seq<char> {
    "unsafe {\n"@ + get_variables_text(op, with_optional)
        + "let vips_op_response = bindings::vips_"@ + op.vips_name + "("@ + get_params_text(
        op,
        with_optional,
    ) + ", NULL);\nutils::result(vips_op_response, "@ + out_result_text(op) + ", Error::"@
        + class_of(op.name) + "Error)\n}"@
}

/// The signature of one emitted function. The by-name form adds the options
/// parameter after the required ones.
pub open spec fn declaration_text(op: OperationS, with_optional: bool) -> Seq<char> {
    let params = join_with(
        op.required.map_values(|p: ParameterS| param_declaration_text(p)),
        ", "@,
    );
    let all_params = if with_optional {
        let opt = snake_of(op.name) + "_options: &"@ + class_of(op.name) + "Options"@;
        if op.required.len() == 0 {
            opt
        } else {
            params + ", "@ + opt
        }
    } else {
        params
    };
    let return_type = if op.output.len() == 0 {
        "()"@
    } else if op.output.len() == 1 {
        struct_type_text(op.output[0].param_type)
    } else {
        "("@ + join_with(
            op.output.map_values(|p: ParameterS| struct_type_text(p.param_type)),
            ", "@,
        ) + ")"@
    };
    "pub fn "@ + (if with_optional {
        op.name + "_with_opts"@
    } else {
        op.name
    }) + "("@ + all_params + ") -> Result<"@ + return_type + ">"@
}

/// The positional-only emitted function of an operation.
pub open spec fn main_fn_text(op: OperationS) -> Seq<char> {
    op_doc_text(op, false) + "\n"@ + declaration_text(op, false) + " {\n"@ + method_body_text(
        op,
        false,
    ) + "\n}\n\n"@
}

/// The options record and the by-name emitted function of an operation.
pub open spec fn opts_fn_text(op: OperationS) -> Seq<char> {
    struct_options_text(op) + "\n"@ + op_doc_text(op, true) + "\n"@ + declaration_text(op, true)
        + " {\n"@ + method_body_text(op, true) + "\n}\n\n"@
}

/// Everything emitted for one operation: one wrapper function, and, only
/// when it has optional parameters, an options record and a second wrapper.
#[verifier::opaque]
pub open spec fn body_text(op: OperationS) -> Seq<char> {
    if op.optional.len() == 0 {
        main_fn_text(op)
    } else {
        main_fn_text(op) + opts_fn_text(op)
    }
}

impl Parameter {
    /// The expression converting this output slot to its return value.
    pub fn as_out_param(&self) -> (r: String)
        ensures
            r@ == as_out_param_text(self@),
    {
        let mut s = String::new();
        match &self.param_type {
            ParamType::ArrayByte => {
                s.append("utils::new_byte_array(");
                s.append(self.name.as_str());
                s.append("_out, ");
                s.append(self.name.as_str());
                s.append("_buf_size)");
            }
            ParamType::VipsImage { .. } => {
                s.append("VipsImage{ ctx: ");
                s.append(self.name.as_str());
                s.append("_out }");
            }
            ParamType::VipsInterpolate => {
                s.append("VipsInterpolate{ ctx: ");
                s.append(self.name.as_str());
                s.append("_out }");
            }
            ParamType::VipsBlob => {
                s.append("VipsBlob{ ctx: ");
                s.append(self.name.as_str());
                s.append("_out }.into()");
            }
            ParamType::Int { .. } | ParamType::UInt { .. } | ParamType::Double { .. } => {
                s.append(self.name.as_str());
                s.append("_out");
            }
            ParamType::Bool { .. } => {
                s.append(self.name.as_str());
                s.append("_out != 0");
            }
            ParamType::ArrayInt => {
                s.append("utils::new_int_array(");
                s.append(self.name.as_str());
                s.append("_out, ");
                s.append(self.name.as_str());
                s.append("_array_size)");
            }
            ParamType::ArrayDouble => {
                s.append("utils::new_double_array(");
                s.append(self.name.as_str());
                s.append("_out, ");
                s.append(self.name.as_str());
                s.append("_array_size)");
            }
            ParamType::Str | ParamType::Enum { .. } | ParamType::ArrayImage => {
                s.append("*");
                s.append(self.name.as_str());
                s.append("_out");
            }
        }
        proof {
            assert(s@ =~= as_out_param_text(self@));
        }
        s
    }

    /// This parameter's documentation lines for a signature.
    pub fn doc(&self) -> (r: String)
        ensures
            r@ == param_doc_text(self@),
    {
        let mut s = String::new();
        s.append("/// ");
        s.append(self.name.as_str());
        s.append(": `");
        let t = self.param_type.param_type();
        s.append(t.as_str());
        s.append("` -> ");
        s.append(self.description.as_str());
        let td = self.param_type.doc();
        if !td.as_str().is_empty() {
            s.append("\n");
            s.append(td.as_str());
        }
        proof {
            assert(s@ =~= param_doc_text(self@));
        }
        s
    }

    /// This parameter's documentation lines as an options-record field.
    pub fn doc_struct(&self) -> (r: String)
        ensures
            r@ == doc_struct_text(self@),
    {
        let mut s = String::new();
        s.append("/// ");
        s.append(self.name.as_str());
        s.append(": `");
        let t = self.param_type.struct_type();
        s.append(t.as_str());
        s.append("` -> ");
        s.append(self.description.as_str());
        let td = self.param_type.doc();
        if !td.as_str().is_empty() {
            s.append("\n");
            s.append(td.as_str());
        }
        proof {
            assert(s@ =~= doc_struct_text(self@));
        }
        s
    }

    /// The binding of this required parameter's native representation.
    pub fn declare_in_variable(&self) -> (r: String)
        ensures
            r@ == declare_in_variable_text(self@),
    {
        let t = self.param_type.vips_in_type(false);
        let mut s = String::new();
        s.append("let ");
        s.append(self.name.as_str());
        match &self.param_type {
            ParamType::Int { .. } | ParamType::UInt { .. } | ParamType::Double { .. } => {
                s.append("_in: ");
                s.append(t.as_str());
                s.append(" = ");
                s.append(self.name.as_str());
                s.append(";");
            }
            ParamType::Str => {
                s.append("_in: ");
                s.append(t.as_str());
                s.append(" = utils::new_c_string(");
                s.append(self.name.as_str());
                s.append(")?;");
            }
            ParamType::Bool { .. } => {
                s.append("_in: ");
                s.append(t.as_str());
                s.append(" = if ");
                s.append(self.name.as_str());
                s.append(" { 1 } else { 0 };");
            }
            ParamType::ArrayInt | ParamType::ArrayDouble => {
                s.append("_in: ");
                s.append(t.as_str());
                s.append(" = ");
                s.append(self.name.as_str());
                s.append(".as_mut_ptr();");
            }
            ParamType::ArrayByte => {
                s.append("_in: ");
                s.append(t.as_str());
                s.append(" = ");
                s.append(self.name.as_str());
                s.append(".as_ptr() as ");
                s.append(t.as_str());
                s.append(";");
            }
            ParamType::ArrayImage => {
                s.append("_in: ");
                s.append(t.as_str());
                s.append(" = ");
                s.append(self.name.as_str());
                s.append(".iter().map(|v| v.ctx).collect::<Vec<_>>().as_mut_ptr();");
            }
            ParamType::VipsInterpolate | ParamType::VipsImage { .. } | ParamType::VipsBlob => {
                s.append("_in: ");
                s.append(t.as_str());
                s.append(" = ");
                s.append(self.name.as_str());
                s.append(".ctx;");
            }
            ParamType::Enum { .. } => {
                s.append("_in: ");
                s.append(t.as_str());
                s.append(" = ");
                s.append(self.name.as_str());
                s.append(" as i32;");
            }
        }
        proof {
            assert(s@ =~= declare_in_variable_text(self@));
        }
        s
    }

    /// The binding of this optional parameter's native representation out of
    /// the options record.
    pub fn declare_in_variable_optional(&self, opt_name: &str) -> (r: String)
        ensures
            r@ == declare_in_variable_optional_text(self@, opt_name@),
    {
        let t = self.param_type.vips_in_type(true);
        let mut s = String::new();
        s.append("let ");
        s.append(self.name.as_str());
        match &self.param_type {
            ParamType::Int { .. } | ParamType::UInt { .. } | ParamType::Double { .. } => {
                s.append("_in: ");
                s.append(t.as_str());
                s.append(" = ");
                s.append(opt_name);
                s.append("_options.");
                s.append(self.name.as_str());
                s.append(";");
            }
            ParamType::Str => {
                s.append("_in: ");
                s.append(t.as_str());
                s.append(" = utils::new_c_string(&");
                s.append(opt_name);
                s.append("_options.");
                s.append(self.name.as_str());
                s.append(")?;");
            }
            ParamType::Bool { .. } => {
                s.append("_in: ");
                s.append(t.as_str());
                s.append(" = if ");
                s.append(opt_name);
                s.append("_options.");
                s.append(self.name.as_str());
                s.append(" { 1 } else { 0 };");
            }
            ParamType::ArrayDouble | ParamType::ArrayImage | ParamType::ArrayInt => {
                s.append("_wrapper = ");
                s.append(t.as_str());
                s.append("::from(&");
                s.append(opt_name);
                s.append("_options.");
                s.append(self.name.as_str());
                s.append("[..]); \nlet ");
                s.append(self.name.as_str());
                s.append("_in = ");
                s.append(self.name.as_str());
                s.append("_wrapper.ctx;");
            }
            ParamType::ArrayByte => {
                s.append("_in: ");
                s.append(t.as_str());
                s.append(" = ");
                s.append(opt_name);
                s.append("_options.");
                s.append(self.name.as_str());
                s.append(".as_mut_ptr();");
            }
            ParamType::VipsBlob | ParamType::VipsImage { .. } | ParamType::VipsInterpolate => {
                s.append("_in: ");
                s.append(t.as_str());
                s.append(" = ");
                s.append(opt_name);
                s.append("_options.");
                s.append(self.name.as_str());
                s.append(".ctx;");
            }
            ParamType::Enum { .. } => {
                s.append("_in: ");
                s.append(t.as_str());
                s.append(" = ");
                s.append(opt_name);
                s.append("_options.");
                s.append(self.name.as_str());
                s.append(" as i32;");
            }
        }
        proof {
            assert(s@ =~= declare_in_variable_optional_text(self@, opt_name@));
        }
        s
    }

    /// The binding of this optional parameter's native string key.
    pub fn declare_opt_name(&self) -> (r: String)
        ensures
            r@ == declare_opt_name_text(self@),
    {
        let mut s = String::new();
        s.append("let ");
        s.append(self.name.as_str());
        s.append("_in_name = utils::new_c_string(\"");
        s.append(self.vips_name.as_str());
        s.append("\")?;");
        proof {
            assert(s@ =~= declare_opt_name_text(self@));
        }
        s
    }

    /// The trailing key/value pair this optional parameter adds to the call.
    pub fn opt_param_pair(&self) -> (r: String)
        ensures
            r@ == opt_param_pair_text(self@),
    {
        let mut s = String::new();
        s.append(self.name.as_str());
        s.append("_in_name.as_ptr(), ");
        s.append(self.name.as_str());
        match &self.param_type {
            ParamType::Str => {
                s.append("_in.as_ptr()");
            }
            _ => {
                s.append("_in");
            }
        }
        proof {
            assert(s@ =~= opt_param_pair_text(self@));
        }
        s
    }

    /// The binding of this output slot's native variable.
    pub fn declare_out_variable(&self) -> (r: String)
        requires
            wf_param(self@),
        ensures
            r@ == declare_out_variable_text(self@),
    {
        let t = self.param_type.vips_out_type();
        let mut s = String::new();
        s.append("let mut ");
        s.append(self.name.as_str());
        match &self.param_type {
            ParamType::ArrayByte => {
                s.append("_buf_size: u64 = 0;\nlet mut ");
                s.append(self.name.as_str());
                s.append("_out: ");
                s.append(t.as_str());
                s.append(" = null_mut();");
            }
            ParamType::Int { .. } | ParamType::Double { .. } | ParamType::UInt { .. } => {
                s.append("_out: ");
                s.append(t.as_str());
                s.append(" = ");
                let d = self.param_type.default();
                s.append(d.as_str());
                s.append(";");
            }
            ParamType::ArrayDouble | ParamType::ArrayInt | ParamType::ArrayImage => {
                s.append("_array_size: usize = 0;\nlet mut ");
                s.append(self.name.as_str());
                s.append("_out: ");
                s.append(t.as_str());
                s.append(" = null_mut();");
            }
            ParamType::Bool { .. } => {
                s.append("_out: ");
                s.append(t.as_str());
                s.append(" = 0;");
            }
            ParamType::Str | ParamType::Enum { .. } | ParamType::VipsImage { .. }
            | ParamType::VipsInterpolate | ParamType::VipsBlob => {
                s.append("_out: ");
                s.append(t.as_str());
                s.append(" = null_mut();");
            }
        }
        proof {
            assert(s@ =~= declare_out_variable_text(self@));
        }
        s
    }

    /// This parameter as an options-record field with its default.
    pub fn default(&self) -> (r: String)
        requires
            wf_param(self@),
        ensures
            r@ == param_default_text(self@),
    {
        let mut s = String::new();
        s.append(self.name.as_str());
        let icc = match &self.param_type {
            ParamType::Str => contains_str(self.description.as_str(), "ICC"),
            _ => false,
        };
        if icc {
            s.append(": String::from(\"sRGB\")");
        } else {
            s.append(": ");
            let d = self.param_type.default();
            s.append(d.as_str());
        }
        proof {
            assert(s@ =~= param_default_text(self@));
        }
        s
    }

    /// This parameter as an options-record field declaration.
    pub fn struct_declaration(&self) -> (r: String)
        ensures
            r@ == struct_declaration_text(self@),
    {
        let mut s = String::new();
        s.append(self.name.as_str());
        s.append(": ");
        let t = self.param_type.struct_type();
        s.append(t.as_str());
        proof {
            assert(s@ =~= struct_declaration_text(self@));
        }
        s
    }

    /// This parameter as a signature declaration.
    pub fn param_declaration(&self) -> (r: String)
        ensures
            r@ == param_declaration_text(self@),
    {
        let mut s = String::new();
        s.append(self.name.as_str());
        s.append(": ");
        let t = self.param_type.param_type();
        s.append(t.as_str());
        proof {
            assert(s@ =~= param_declaration_text(self@));
        }
        s
    }
}

/// One call-site argument of the native call.
fn call_arg(is_output: bool, p: &Parameter) -> (r: String)
    ensures
        r@ == call_arg_text(is_output, p@),
{
    let mut s = String::new();
    if is_output {
        s.append("&mut ");
        s.append(p.name.as_str());
        match &p.param_type {
            ParamType::ArrayByte => {
                s.append("_out, &mut ");
                s.append(p.name.as_str());
                s.append("_buf_size");
            }
            ParamType::ArrayInt | ParamType::ArrayDouble | ParamType::ArrayImage => {
                s.append("_out, &mut ");
                s.append(p.name.as_str());
                s.append("_array_size");
            }
            ParamType::VipsImage { prev: Option::Some(prev) } => {
                s.append("_out, ");
                s.append(prev.as_str());
                s.append(".len() as i32");
            }
            _ => {
                s.append("_out");
            }
        }
    } else {
        s.append(p.name.as_str());
        match &p.param_type {
            ParamType::ArrayInt | ParamType::ArrayDouble => {
                s.append("_in, ");
                s.append(p.name.as_str());
                s.append(".len() as i32");
            }
            ParamType::ArrayImage => {
                s.append("_in");
            }
            ParamType::ArrayByte => {
                s.append("_in, ");
                s.append(p.name.as_str());
                s.append(".len() as u64");
            }
            ParamType::Enum { .. } => {
                s.append("_in.try_into().unwrap()");
            }
            ParamType::Str => {
                s.append("_in.as_ptr()");
            }
            _ => {
                s.append("_in");
            }
        }
    }
    proof {
        assert(s@ =~= call_arg_text(is_output, p@));
    }
    s
}

fn map_docs(params: &Vec<Parameter>) -> (r: Vec<String>)
    ensures
        views_of(r@) == param_views(params@).map_values(|p: ParameterS| param_doc_text(p)),
{
    let ghost pv = param_views(params@);
    let ghost f = |p: ParameterS| param_doc_text(p);
    let mut out: Vec<String> = Vec::new();
    let mut i: usize = 0;
    proof {
        assert(views_of(out@) =~= pv.take(0).map_values(f));
    }
    while i < params.len()
        invariant
            0 <= i <= params@.len(),
            pv == param_views(params@),
            pv.len() == params@.len(),
            f == (|p: ParameterS| param_doc_text(p)),
            views_of(out@) == pv.take(i as int).map_values(f),
        decreases params@.len() - i,
    {
        proof {
            assert(pv[i as int] == params@[i as int]@);
        }
        let piece = params[i].doc();
        out.push(piece);
        proof {
            assert(views_of(out@) =~= pv.take(i as int).map_values(f).push(f(pv[i as int])));
            assert(pv.take(i as int + 1).map_values(f) =~= pv.take(i as int).map_values(f).push(
                f(pv[i as int]),
            ));
        }
        i = i + 1;
    }
    proof {
        assert(pv.take(pv.len() as int) =~= pv);
    }
    out
}

fn map_declare_in(params: &Vec<Parameter>) -> (r: Vec<String>)
    ensures
        views_of(r@) == param_views(params@).map_values(
            |p: ParameterS| declare_in_variable_text(p),
        ),
{
    let ghost pv = param_views(params@);
    let ghost f = |p: ParameterS| declare_in_variable_text(p);
    let mut out: Vec<String> = Vec::new();
    let mut i: usize = 0;
    proof {
        assert(views_of(out@) =~= pv.take(0).map_values(f));
    }
    while i < params.len()
        invariant
            0 <= i <= params@.len(),
            pv == param_views(params@),
            pv.len() == params@.len(),
            f == (|p: ParameterS| declare_in_variable_text(p)),
            views_of(out@) == pv.take(i as int).map_values(f),
        decreases params@.len() - i,
    {
        proof {
            assert(pv[i as int] == params@[i as int]@);
        }
        let piece = params[i].declare_in_variable();
        out.push(piece);
        proof {
            assert(views_of(out@) =~= pv.take(i as int).map_values(f).push(f(pv[i as int])));
            assert(pv.take(i as int + 1).map_values(f) =~= pv.take(i as int).map_values(f).push(
                f(pv[i as int]),
            ));
        }
        i = i + 1;
    }
    proof {
        assert(pv.take(pv.len() as int) =~= pv);
    }
    out
}

fn map_declare_out(params: &Vec<Parameter>) -> (r: Vec<String>)
    requires
        forall|i: int| 0 <= i < params@.len() ==> wf_param(#[trigger] params@[i]@),
    ensures
        views_of(r@) == param_views(params@).map_values(
            |p: ParameterS| declare_out_variable_text(p),
        ),
{
    let ghost pv = param_views(params@);
    let ghost f = |p: ParameterS| declare_out_variable_text(p);
    let mut out: Vec<String> = Vec::new();
    let mut i: usize = 0;
    proof {
        assert(views_of(out@) =~= pv.take(0).map_values(f));
    }
    while i < params.len()
        invariant
            0 <= i <= params@.len(),
            pv == param_views(params@),
            pv.len() == params@.len(),
            f == (|p: ParameterS| declare_out_variable_text(p)),
            forall|k: int| 0 <= k < params@.len() ==> wf_param(#[trigger] params@[k]@),
            views_of(out@) == pv.take(i as int).map_values(f),
        decreases params@.len() - i,
    {
        proof {
            assert(pv[i as int] == params@[i as int]@);
        }
        let piece = params[i].declare_out_variable();
        out.push(piece);
        proof {
            assert(views_of(out@) =~= pv.take(i as int).map_values(f).push(f(pv[i as int])));
            assert(pv.take(i as int + 1).map_values(f) =~= pv.take(i as int).map_values(f).push(
                f(pv[i as int]),
            ));
        }
        i = i + 1;
    }
    proof {
        assert(pv.take(pv.len() as int) =~= pv);
    }
    out
}

fn map_opt_decls(params: &Vec<Parameter>, opt_name: &str) -> (r: Vec<String>)
    ensures
        views_of(r@) == param_views(params@).map_values(
            |p: ParameterS| declare_in_variable_optional_text(p, opt_name@) + "\n"@
                + declare_opt_name_text(p),
        ),
{
    let ghost pv = param_views(params@);
    let ghost f = |p: ParameterS| declare_in_variable_optional_text(p, opt_name@) + "\n"@
        + declare_opt_name_text(p);
    let mut out: Vec<String> = Vec::new();
    let mut i: usize = 0;
    proof {
        assert(views_of(out@) =~= pv.take(0).map_values(f));
    }
    while i < params.len()
        invariant
            0 <= i <= params@.len(),
            pv == param_views(params@),
            pv.len() == params@.len(),
            f == (|p: ParameterS| declare_in_variable_optional_text(p, opt_name@) + "\n"@
                + declare_opt_name_text(p)),
            views_of(out@) == pv.take(i as int).map_values(f),
        decreases params@.len() - i,
    {
        proof {
            assert(pv[i as int] == params@[i as int]@);
        }
        let mut piece = params[i].declare_in_variable_optional(opt_name);
        piece.append("\n");
        let key = params[i].declare_opt_name();
        piece.append(key.as_str());
        proof {
            assert(piece@ =~= f(pv[i as int]));
        }
        out.push(piece);
        proof {
            assert(views_of(out@) =~= pv.take(i as int).map_values(f).push(f(pv[i as int])));
            assert(pv.take(i as int + 1).map_values(f) =~= pv.take(i as int).map_values(f).push(
                f(pv[i as int]),
            ));
        }
        i = i + 1;
    }
    proof {
        assert(pv.take(pv.len() as int) =~= pv);
    }
    out
}

fn map_opt_pairs(params: &Vec<Parameter>) -> (r: Vec<String>)
    ensures
        views_of(r@) == param_views(params@).map_values(|p: ParameterS| opt_param_pair_text(p)),
{
    let ghost pv = param_views(params@);
    let ghost f = |p: ParameterS| opt_param_pair_text(p);
    let mut out: Vec<String> = Vec::new();
    let mut i: usize = 0;
    proof {
        assert(views_of(out@) =~= pv.take(0).map_values(f));
    }
    while i < params.len()
        invariant
            0 <= i <= params@.len(),
            pv == param_views(params@),
            pv.len() == params@.len(),
            f == (|p: ParameterS| opt_param_pair_text(p)),
            views_of(out@) == pv.take(i as int).map_values(f),
        decreases params@.len() - i,
    {
        proof {
            assert(pv[i as int] == params@[i as int]@);
        }
        let piece = params[i].opt_param_pair();
        out.push(piece);
        proof {
            assert(views_of(out@) =~= pv.take(i as int).map_values(f).push(f(pv[i as int])));
            assert(pv.take(i as int + 1).map_values(f) =~= pv.take(i as int).map_values(f).push(
                f(pv[i as int]),
            ));
        }
        i = i + 1;
    }
    proof {
        assert(pv.take(pv.len() as int) =~= pv);
    }
    out
}

fn map_param_decls(params: &Vec<Parameter>) -> (r: Vec<String>)
    ensures
        views_of(r@) == param_views(params@).map_values(|p: ParameterS| param_declaration_text(p)),
{
    let ghost pv = param_views(params@);
    let ghost f = |p: ParameterS| param_declaration_text(p);
    let mut out: Vec<String> = Vec::new();
    let mut i: usize = 0;
    proof {
        assert(views_of(out@) =~= pv.take(0).map_values(f));
    }
    while i < params.len()
        invariant
            0 <= i <= params@.len(),
            pv == param_views(params@),
            pv.len() == params@.len(),
            f == (|p: ParameterS| param_declaration_text(p)),
            views_of(out@) == pv.take(i as int).map_values(f),
        decreases params@.len() - i,
    {
        proof {
            assert(pv[i as int] == params@[i as int]@);
        }
        let piece = params[i].param_declaration();
        out.push(piece);
        proof {
            assert(views_of(out@) =~= pv.take(i as int).map_values(f).push(f(pv[i as int])));
            assert(pv.take(i as int + 1).map_values(f) =~= pv.take(i as int).map_values(f).push(
                f(pv[i as int]),
            ));
        }
        i = i + 1;
    }
    proof {
        assert(pv.take(pv.len() as int) =~= pv);
    }
    out
}

fn map_struct_fields(params: &Vec<Parameter>) -> (r: Vec<String>)
    ensures
        views_of(r@) == param_views(params@).map_values(
            |p: ParameterS| doc_struct_text(p) + "\npub "@ + struct_declaration_text(p),
        ),
{
    let ghost pv = param_views(params@);
    let ghost f = |p: ParameterS| doc_struct_text(p) + "\npub "@ + struct_declaration_text(p);
    let mut out: Vec<String> = Vec::new();
    let mut i: usize = 0;
    proof {
        assert(views_of(out@) =~= pv.take(0).map_values(f));
    }
    while i < params.len()
        invariant
            0 <= i <= params@.len(),
            pv == param_views(params@),
            pv.len() == params@.len(),
            f == (|p: ParameterS| doc_struct_text(p) + "\npub "@ + struct_declaration_text(p)),
            views_of(out@) == pv.take(i as int).map_values(f),
        decreases params@.len() - i,
    {
        proof {
            assert(pv[i as int] == params@[i as int]@);
        }
        let mut piece = params[i].doc_struct();
        piece.append("\npub ");
        let decl = params[i].struct_declaration();
        piece.append(decl.as_str());
        proof {
            assert(piece@ =~= f(pv[i as int]));
        }
        out.push(piece);
        proof {
            assert(views_of(out@) =~= pv.take(i as int).map_values(f).push(f(pv[i as int])));
            assert(pv.take(i as int + 1).map_values(f) =~= pv.take(i as int).map_values(f).push(
                f(pv[i as int]),
            ));
        }
        i = i + 1;
    }
    proof {
        assert(pv.take(pv.len() as int) =~= pv);
    }
    out
}

fn map_defaults(params: &Vec<Parameter>) -> (r: Vec<String>)
    requires
        forall|i: int| 0 <= i < params@.len() ==> wf_param(#[trigger] params@[i]@),
    ensures
        views_of(r@) == param_views(params@).map_values(|p: ParameterS| param_default_text(p)),
{
    let ghost pv = param_views(params@);
    let ghost f = |p: ParameterS| param_default_text(p);
    let mut out: Vec<String> = Vec::new();
    let mut i: usize = 0;
    proof {
        assert(views_of(out@) =~= pv.take(0).map_values(f));
    }
    while i < params.len()
        invariant
            0 <= i <= params@.len(),
            pv == param_views(params@),
            pv.len() == params@.len(),
            f == (|p: ParameterS| param_default_text(p)),
            forall|k: int| 0 <= k < params@.len() ==> wf_param(#[trigger] params@[k]@),
            views_of(out@) == pv.take(i as int).map_values(f),
        decreases params@.len() - i,
    {
        proof {
            assert(pv[i as int] == params@[i as int]@);
        }
        let piece = params[i].default();
        out.push(piece);
        proof {
            assert(views_of(out@) =~= pv.take(i as int).map_values(f).push(f(pv[i as int])));
            assert(pv.take(i as int + 1).map_values(f) =~= pv.take(i as int).map_values(f).push(
                f(pv[i as int]),
            ));
        }
        i = i + 1;
    }
    proof {
        assert(pv.take(pv.len() as int) =~= pv);
    }
    out
}

fn map_out_params(params: &Vec<Parameter>) -> (r: Vec<String>)
    ensures
        views_of(r@) == param_views(params@).map_values(|p: ParameterS| as_out_param_text(p)),
{
    let ghost pv = param_views(params@);
    let ghost f = |p: ParameterS| as_out_param_text(p);
    let mut out: Vec<String> = Vec::new();
    let mut i: usize = 0;
    proof {
        assert(views_of(out@) =~= pv.take(0).map_values(f));
    }
    while i < params.len()
        invariant
            0 <= i <= params@.len(),
            pv == param_views(params@),
            pv.len() == params@.len(),
            f == (|p: ParameterS| as_out_param_text(p)),
            views_of(out@) == pv.take(i as int).map_values(f),
        decreases params@.len() - i,
    {
        proof {
            assert(pv[i as int] == params@[i as int]@);
        }
        let piece = params[i].as_out_param();
        out.push(piece);
        proof {
            assert(views_of(out@) =~= pv.take(i as int).map_values(f).push(f(pv[i as int])));
            assert(pv.take(i as int + 1).map_values(f) =~= pv.take(i as int).map_values(f).push(
                f(pv[i as int]),
            ));
        }
        i = i + 1;
    }
    proof {
        assert(pv.take(pv.len() as int) =~= pv);
    }
    out
}

fn map_out_struct_types(params: &Vec<Parameter>) -> (r: Vec<String>)
    ensures
        views_of(r@) == param_views(params@).map_values(
            |p: ParameterS| struct_type_text(p.param_type),
        ),
{
    let ghost pv = param_views(params@);
    let ghost f = |p: ParameterS| struct_type_text(p.param_type);
    let mut out: Vec<String> = Vec::new();
    let mut i: usize = 0;
    proof {
        assert(views_of(out@) =~= pv.take(0).map_values(f));
    }
    while i < params.len()
        invariant
            0 <= i <= params@.len(),
            pv == param_views(params@),
            pv.len() == params@.len(),
            f == (|p: ParameterS| struct_type_text(p.param_type)),
            views_of(out@) == pv.take(i as int).map_values(f),
        decreases params@.len() - i,
    {
        proof {
            assert(pv[i as int] == params@[i as int]@);
        }
        let piece = params[i].param_type.struct_type();
        out.push(piece);
        proof {
            assert(views_of(out@) =~= pv.take(i as int).map_values(f).push(f(pv[i as int])));
            assert(pv.take(i as int + 1).map_values(f) =~= pv.take(i as int).map_values(f).push(
                f(pv[i as int]),
            ));
        }
        i = i + 1;
    }
    proof {
        assert(pv.take(pv.len() as int) =~= pv);
    }
    out
}

fn map_out_docs(params: &Vec<Parameter>) -> (r: Vec<String>)
    ensures
        views_of(r@) == param_views(params@).map_values(
            |p: ParameterS| "/// "@ + struct_type_text(p.param_type) + " - "@ + p.description,
        ),
{
    let ghost pv = param_views(params@);
    let ghost f = |p: ParameterS| "/// "@ + struct_type_text(p.param_type) + " - "@ + p.description;
    let mut out: Vec<String> = Vec::new();
    let mut i: usize = 0;
    proof {
        assert(views_of(out@) =~= pv.take(0).map_values(f));
    }
    while i < params.len()
        invariant
            0 <= i <= params@.len(),
            pv == param_views(params@),
            pv.len() == params@.len(),
            f == (|p: ParameterS| "/// "@ + struct_type_text(p.param_type) + " - "@
                + p.description),
            views_of(out@) == pv.take(i as int).map_values(f),
        decreases params@.len() - i,
    {
        proof {
            assert(pv[i as int] == params@[i as int]@);
        }
        let mut piece = String::new();
        piece.append("/// ");
        let t = params[i].param_type.struct_type();
        piece.append(t.as_str());
        piece.append(" - ");
        piece.append(params[i].description.as_str());
        proof {
            assert(piece@ =~= f(pv[i as int]));
        }
        out.push(piece);
        proof {
            assert(views_of(out@) =~= pv.take(i as int).map_values(f).push(f(pv[i as int])));
            assert(pv.take(i as int + 1).map_values(f) =~= pv.take(i as int).map_values(f).push(
                f(pv[i as int]),
            ));
        }
        i = i + 1;
    }
    proof {
        assert(pv.take(pv.len() as int) =~= pv);
    }
    out
}

/// The enumerated-type declarations referenced by a parameter list, in
/// order, kinds without one skipped.
pub open spec fn enum_texts_of(params: Seq<ParameterS>) -> Seq<Seq<char>> {
    params.map_values(|p: ParameterS| crate::typemodel::enumeration_text(p.param_type)).filter(
        |t: Seq<char>| t.len() > 0,
    )
}

/// The enumerated-type declarations referenced by any of an operation's
/// parameters.
pub open spec fn op_enum_texts(op: OperationS) -> Seq<Seq<char>> {
    enum_texts_of(op.required) + enum_texts_of(op.optional) + enum_texts_of(op.output)
}

fn enum_texts_exec(params: &Vec<Parameter>) -> (r: Vec<String>)
    ensures
        views_of(r@) == enum_texts_of(param_views(params@)),
{
    let ghost pv = param_views(params@);
    let ghost f = |p: ParameterS| crate::typemodel::enumeration_text(p.param_type);
    let ghost pred = |t: Seq<char>| t.len() > 0;
    let mut out: Vec<String> = Vec::new();
    let mut i: usize = 0;
    proof {
        assert(views_of(out@) =~= pv.take(0).map_values(f).filter(pred));
    }
    while i < params.len()
        invariant
            0 <= i <= params@.len(),
            pv == param_views(params@),
            pv.len() == params@.len(),
            f == (|p: ParameterS| crate::typemodel::enumeration_text(p.param_type)),
            pred == (|t: Seq<char>| t.len() > 0),
            views_of(out@) == pv.take(i as int).map_values(f).filter(pred),
        decreases params@.len() - i,
    {
        proof {
            reveal(Seq::filter);
            assert(pv[i as int] == params@[i as int]@);
            assert(pv.take(i as int + 1).map_values(f).drop_last() =~= pv.take(
                i as int,
            ).map_values(f));
            assert(pv.take(i as int + 1).map_values(f).last() == f(pv[i as int]));
        }
        let piece = params[i].param_type.enumeration();
        if !piece.as_str().is_empty() {
            let ghost out0 = views_of(out@);
            out.push(piece);
            proof {
                assert(views_of(out@) =~= out0.push(f(pv[i as int])));
                assert(pv.take(i as int + 1).map_values(f).filter(pred) =~= out0.push(
                    f(pv[i as int]),
                ));
            }
        } else {
            proof {
                assert(pv.take(i as int + 1).map_values(f).filter(pred) =~= pv.take(
                    i as int,
                ).map_values(f).filter(pred));
            }
        }
        i = i + 1;
    }
    proof {
        assert(pv.take(pv.len() as int) =~= pv);
    }
    out
}

impl Operation {
    /// The summary and required-parameter documentation lines.
    pub fn doc_base(&self) -> (r: String)
        ensures
            r@ == doc_base_text(self@),
    {
        let mut s = String::new();
        s.append("/// ");
        s.append(self.description.as_str());
        s.append("\n");
        let docs = map_docs(&self.required);
        let joined = join_strings(&docs, "\n");
        s.append(joined.as_str());
        proof {
            assert(s@ =~= doc_base_text(self@));
        }
        s
    }

    /// The line naming the options parameter.
    pub fn doc_optional(&self) -> (r: String)
        ensures
            r@ == doc_optional_text(self@),
    {
        let mut s = String::new();
        s.append("/// ");
        s.append(self.name.as_str());
        s.append("_options: `&");
        let class = to_class_case(self.name.as_str());
        s.append(class.as_str());
        s.append("Options` -> optional arguments");
        proof {
            assert(s@ =~= doc_optional_text(self@));
        }
        s
    }

    /// The return-value documentation lines.
    pub fn doc_returns(&self) -> (r: String)
        ensures
            r@ == doc_returns_text(self@),
    {
        if self.output.len() == 1 {
            proof {
                assert(param_views(self.output@)[0] == self.output@[0]@);
            }
            let mut s = String::new();
            s.append("/// returns `");
            let t = self.output[0].param_type.struct_type();
            s.append(t.as_str());
            s.append("` - ");
            s.append(self.output[0].description.as_str());
            proof {
                assert(s@ =~= doc_returns_text(self@));
            }
            s
        } else if self.output.len() > 1 {
            let mut s = String::new();
            s.append("/// Tuple (\n");
            let docs = map_out_docs(&self.output);
            let joined = join_strings(&docs, "\n");
            s.append(joined.as_str());
            s.append("\n///)");
            proof {
                assert(s@ =~= doc_returns_text(self@));
            }
            s
        } else {
            let s = String::new();
            proof {
                assert(s@ =~= doc_returns_text(self@));
            }
            s
        }
    }

    /// The documentation block of one emitted function.
    pub fn doc(&self, with_optional: bool) -> (r: String)
        ensures
            r@ == op_doc_text(self@, with_optional),
    {
        let mut s = self.doc_base();
        s.append("\n");
        if self.optional.len() > 0 && with_optional {
            let opt = self.doc_optional();
            s.append(opt.as_str());
            s.append("\n");
        }
        let ret = self.doc_returns();
        s.append(ret.as_str());
        proof {
            assert(s@ =~= op_doc_text(self@, with_optional));
        }
        s
    }

    /// The options record bundling this operation's optional parameters.
    pub fn struct_options(&self) -> (r: String)
        requires
            wf_operation(self@),
        ensures
            r@ == struct_options_text(self@),
    {
        proof {
            assert forall|i: int| 0 <= i < self.optional@.len() implies wf_param(
                #[trigger] self.optional@[i]@,
            ) by {
                assert(self@.optional[i] == self.optional@[i]@);
            }
        }
        let class = to_class_case(self.name.as_str());
        let mut s = String::new();
        s.append("/// Options for ");
        s.append(self.name.as_str());
        s.append(" operation\n#[derive(Clone, Debug)]\npub struct ");
        s.append(class.as_str());
        s.append("Options {\n");
        let fields = map_struct_fields(&self.optional);
        let joined_fields = join_strings(&fields, ",\n");
        s.append(joined_fields.as_str());
        s.append("\n}\n\nimpl std::default::Default for ");
        s.append(class.as_str());
        s.append("Options {\n    fn default() -> Self {\n        ");
        s.append(class.as_str());
        s.append("Options {\n");
        let defaults = map_defaults(&self.optional);
        let joined_defaults = join_strings(&defaults, ",\n");
        s.append(joined_defaults.as_str());
        s.append("\n        }\n    }\n}\n");
        proof {
            assert(s@ =~= struct_options_text(self@));
        }
        s
    }

    /// The native-variable bindings of one emitted function's body.
    pub fn get_variables(&self, with_optional: bool) -> (r: String)
        requires
            wf_operation(self@),
        ensures
            r@ == get_variables_text(self@, with_optional),
    {
        proof {
            assert forall|i: int| 0 <= i < self.output@.len() implies wf_param(
                #[trigger] self.output@[i]@,
            ) by {
                assert(self@.output[i] == self.output@[i]@);
            }
        }
        let mut s = String::new();
        let ins = map_declare_in(&self.required);
        let joined_ins = join_strings(&ins, "\n");
        s.append(joined_ins.as_str());
        s.append("\n");
        let outs = map_declare_out(&self.output);
        let joined_outs = join_strings(&outs, "\n");
        s.append(joined_outs.as_str());
        s.append("\n");
        if with_optional {
            let snake = to_snake_case(self.name.as_str());
            let opts = map_opt_decls(&self.optional, snake.as_str());
            let joined_opts = join_strings(&opts, "\n");
            s.append(joined_opts.as_str());
            s.append("\n");
        }
        proof {
            assert(s@ =~= get_variables_text(self@, with_optional));
        }
        s
    }

    fn merged_args(&self) -> (r: Vec<String>)
        ensures
            views_of(r@) == tagged_args(self@.required, self@.output, 0, 0),
    {
        let ghost reqv = param_views(self.required@);
        let ghost outv = param_views(self.output@);
        let mut out: Vec<String> = Vec::new();
        let mut i: usize = 0;
        let mut j: usize = 0;
        proof {
            assert(views_of(out@) =~= Seq::<Seq<char>>::empty());
            assert(tagged_args(reqv, outv, 0, 0) =~= views_of(out@) + tagged_args(reqv, outv, 0, 0));
        }
        while i < self.required.len() || j < self.output.len()
            invariant
                0 <= i <= self.required@.len(),
                0 <= j <= self.output@.len(),
                reqv == param_views(self.required@),
                outv == param_views(self.output@),
                reqv.len() == self.required@.len(),
                outv.len() == self.output@.len(),
                tagged_args(reqv, outv, 0, 0) == views_of(out@) + tagged_args(
                    reqv,
                    outv,
                    i as int,
                    j as int,
                ),
            decreases self.required@.len() - i + (self.output@.len() - j),
        {
            let take_req = i < self.required.len() && (j >= self.output.len()
                || self.required[i].order <= self.output[j].order);
            if take_req {
                proof {
                    assert(reqv[i as int] == self.required@[i as int]@);
                    if j < outv.len() {
                        assert(outv[j as int] == self.output@[j as int]@);
                    }
                }
                let piece = call_arg(false, &self.required[i]);
                let ghost out0 = views_of(out@);
                out.push(piece);
                proof {
                    assert(views_of(out@) =~= out0.push(call_arg_text(false, reqv[i as int])));
                    assert(tagged_args(reqv, outv, i as int, j as int) =~= seq![
                        call_arg_text(false, reqv[i as int]),
                    ] + tagged_args(reqv, outv, i as int + 1, j as int));
                    assert(views_of(out@) + tagged_args(reqv, outv, i as int + 1, j as int)
                        =~= out0 + tagged_args(reqv, outv, i as int, j as int));
                }
                i = i + 1;
            } else {
                proof {
                    assert(outv[j as int] == self.output@[j as int]@);
                    if i < reqv.len() {
                        assert(reqv[i as int] == self.required@[i as int]@);
                    }
                }
                let piece = call_arg(true, &self.output[j]);
                let ghost out0 = views_of(out@);
                out.push(piece);
                proof {
                    assert(views_of(out@) =~= out0.push(call_arg_text(true, outv[j as int])));
                    assert(tagged_args(reqv, outv, i as int, j as int) =~= seq![
                        call_arg_text(true, outv[j as int]),
                    ] + tagged_args(reqv, outv, i as int, j as int + 1));
                    assert(views_of(out@) + tagged_args(reqv, outv, i as int, j as int + 1)
                        =~= out0 + tagged_args(reqv, outv, i as int, j as int));
                }
                j = j + 1;
            }
        }
        proof {
            assert(tagged_args(reqv, outv, i as int, j as int) =~= Seq::<Seq<char>>::empty());
            assert(views_of(out@) =~= views_of(out@) + Seq::<Seq<char>>::empty());
        }
        out
    }

    /// The full native-call argument list of one emitted function.
    pub fn get_params(&self, with_optional: bool) -> (r: String)
        ensures
            r@ == get_params_text(self@, with_optional),
    {
        let merged = self.merged_args();
        let mut s = join_strings(&merged, ", ");
        if with_optional {
            s.append(",");
            let pairs = map_opt_pairs(&self.optional);
            let joined = join_strings(&pairs, ", ");
            s.append(joined.as_str());
        }
        proof {
            assert(s@ =~= get_params_text(self@, with_optional));
        }
        s
    }

    fn out_result(&self) -> (r: String)
        ensures
            r@ == out_result_text(self@),
    {
        if self.output.len() > 1 {
            let mut s = String::new();
            s.append("(");
            let outs = map_out_params(&self.output);
            let joined = join_strings(&outs, ",");
            s.append(joined.as_str());
            s.append(")");
            proof {
                assert(s@ =~= out_result_text(self@));
            }
            s
        } else if self.output.len() == 0 {
            let mut s = String::new();
            s.append("()");
            proof {
                assert(s@ =~= out_result_text(self@));
            }
            s
        } else {
            proof {
                assert(param_views(self.output@)[0] == self.output@[0]@);
            }
            let s = self.output[0].as_out_param();
            proof {
                assert(s@ =~= out_result_text(self@));
            }
            s
        }
    }

    /// The body of one emitted function.
    pub fn method_body(&self, with_optional: bool) -> (r: String)
        requires
            wf_operation(self@),
        ensures
            r@ == method_body_text(self@, with_optional),
    {
        let mut s = String::new();
        s.append("unsafe {\n");
        let vars = self.get_variables(with_optional);
        s.append(vars.as_str());
        s.append("let vips_op_response = bindings::vips_");
        s.append(self.vips_name.as_str());
        s.append("(");
        let params = self.get_params(with_optional);
        s.append(params.as_str());
        s.append(", NULL);\nutils::result(vips_op_response, ");
        let out_result = self.out_result();
        s.append(out_result.as_str());
        s.append(", Error::");
        let class = to_class_case(self.name.as_str());
        s.append(class.as_str());
        s.append("Error)\n}");
        proof {
            assert(s@ =~= method_body_text(self@, with_optional));
        }
        s
    }

    /// The signature of one emitted function.
    pub fn declaration(&self, with_optional: bool) -> (r: String)
        ensures
            r@ == declaration_text(self@, with_optional),
    {
        let decls = map_param_decls(&self.required);
        let mut params = join_strings(&decls, ", ");
        if with_optional {
            let snake = to_snake_case(self.name.as_str());
            let class = to_class_case(self.name.as_str());
            let mut opt = String::new();
            opt.append(snake.as_str());
            opt.append("_options: &");
            opt.append(class.as_str());
            opt.append("Options");
            if self.required.len() == 0 {
                proof {
                    assert(join_with(
                        param_views(self.required@).map_values(
                            |p: ParameterS| param_declaration_text(p),
                        ),
                        ", "@,
                    ) =~= Seq::<char>::empty());
                }
                params = opt;
            } else {
                params.append(", ");
                params.append(opt.as_str());
            }
        }
        let mut s = String::new();
        s.append("pub fn ");
        s.append(self.name.as_str());
        if with_optional {
            s.append("_with_opts");
        }
        s.append("(");
        s.append(params.as_str());
        s.append(") -> Result<");
        if self.output.len() == 0 {
            s.append("()");
        } else if self.output.len() == 1 {
            proof {
                assert(param_views(self.output@)[0] == self.output@[0]@);
            }
            let t = self.output[0].param_type.struct_type();
            s.append(t.as_str());
        } else {
            s.append("(");
            let types = map_out_struct_types(&self.output);
            let joined = join_strings(&types, ", ");
            s.append(joined.as_str());
            s.append(")");
        }
        s.append(">");
        proof {
            assert(s@ =~= declaration_text(self@, with_optional));
        }
        s
    }

    /// Everything emitted for this operation: one wrapper function taking
    /// the required parameters, and, only when optional parameters exist,
    /// an options record and a second wrapper taking it.
    #[verifier::rlimit(50)]
    pub fn body(&self) -> (r: String)
        requires
            wf_operation(self@),
        ensures
            r@ == body_text(self@),
    {
        proof {
            reveal(body_text);
        }
        let mut s = self.doc(false);
        s.append("\n");
        let decl = self.declaration(false);
        s.append(decl.as_str());
        s.append(" {\n");
        let mb = self.method_body(false);
        s.append(mb.as_str());
        s.append("\n}\n\n");
        proof {
            assert(s@ =~= main_fn_text(self@));
        }
        if self.optional.len() > 0 {
            let opts = self.struct_options();
            s.append(opts.as_str());
            s.append("\n");
            let doc2 = self.doc(true);
            s.append(doc2.as_str());
            s.append("\n");
            let decl2 = self.declaration(true);
            s.append(decl2.as_str());
            s.append(" {\n");
            let mb2 = self.method_body(true);
            s.append(mb2.as_str());
            s.append("\n}\n\n");
            proof {
                assert(s@ =~= main_fn_text(self@) + opts_fn_text(self@));
            }
        }
        proof {
            assert(s@ =~= body_text(self@));
        }
        s
    }

    /// The enumerated-type declarations this operation's parameters
    /// reference, one entry per occurrence.
    pub fn enumerations(&self) -> (r: Vec<String>)
        ensures
            views_of(r@) == op_enum_texts(self@),
    {
        let mut r = enum_texts_exec(&self.required);
        let mut mid = enum_texts_exec(&self.optional);
        let mut last = enum_texts_exec(&self.output);
        let ghost r0 = views_of(r@);
        let ghost m0 = views_of(mid@);
        let ghost l0 = views_of(last@);
        r.append(&mut mid);
        proof {
            assert(views_of(r@) =~= r0 + m0);
        }
        r.append(&mut last);
        proof {
            assert(views_of(r@) =~= (r0 + m0) + l0);
            assert(views_of(r@) =~= op_enum_texts(self@));
        }
        r
    }
}

/// Operations excluded from generation: their introspection violates the
/// generator's assumptions, and hand-written wrappers replace them.
pub open spec fn blocklisted(op: OperationS) -> bool {
    op.vips_operation == "VipsForeignSaveDzBuffer"@ || op.vips_operation == "crop"@
        || op.vips_operation == "VipsLinear"@ || op.vips_operation == "VipsGetpoint"@
}

/// Whether this operation is on the blocklist.
pub fn is_blocklisted(op: &Operation) -> (r: bool)
    ensures
        r == blocklisted(op@),
{
    crate::text::str_eq(op.vips_operation.as_str(), "VipsForeignSaveDzBuffer")
        || crate::text::str_eq(op.vips_operation.as_str(), "crop") || crate::text::str_eq(
        op.vips_operation.as_str(),
        "VipsLinear",
    ) || crate::text::str_eq(op.vips_operation.as_str(), "VipsGetpoint")
}

/// The operations that generation covers, in catalog order.
pub open spec fn kept_ops(ops: Seq<OperationS>) -> Seq<OperationS> {
    ops.filter(|o: OperationS| !blocklisted(o))
}

/// The texts concatenated in order.
pub open spec fn concat_texts(parts: Seq<Seq<char>>) -> Seq<char>
    decreases parts.len(),
{
    if parts.len() == 0 {
        Seq::empty()
    } else {
        concat_texts(parts.drop_last()) + parts.last()
    }
}

/// Every covered operation's emitted functions, concatenated.
pub open spec fn methods_text(ops: Seq<OperationS>) -> Seq<char> {
    concat_texts(kept_ops(ops).map_values(|o: OperationS| body_text(o)))
}

/// One operation's variant in the error taxonomy.
pub open spec fn error_variant_text(op: OperationS) -> Seq<char> {
    class_of(op.name) + "Error,\n"@
}

/// One operation's display arm in the error taxonomy.
pub open spec fn error_display_line_text(op: OperationS) -> Seq<char> {
    "Error::"@ + class_of(op.name) + "Error => write!(f, \"vips error: "@ + class_of(op.name)
        + "Error. Check error buffer for more details\"),\n"@
}

/// The error-taxonomy variants of every covered operation.
pub open spec fn error_variants_text(ops: Seq<OperationS>) -> Seq<char> {
    concat_texts(kept_ops(ops).map_values(|o: OperationS| error_variant_text(o)))
}

/// The display arms of every covered operation.
pub open spec fn error_display_text(ops: Seq<OperationS>) -> Seq<char> {
    concat_texts(kept_ops(ops).map_values(|o: OperationS| error_display_line_text(o)))
}

/// The enumerated-type declarations of every operation, one per occurrence,
/// in catalog order; the blocklist does not apply to these.
pub open spec fn all_enums(ops: Seq<OperationS>) -> Seq<Seq<char>>
    decreases ops.len(),
{
    if ops.len() == 0 {
        Seq::empty()
    } else {
        all_enums(ops.drop_last()) + op_enum_texts(ops.last())
    }
}

/// The enumerated-type declarations sorted and textually deduplicated, then
/// joined: the determinism pass.
pub open spec fn sorted_enums_text(ops: Seq<OperationS>) -> Seq<char> {
    join_with(
        crate::dedup::dedup_adj(crate::dedup::sort_lex(all_enums(ops))),
        "\n"@,
    )
}

/// The generated operations module: fixed imports, the deduplicated
/// enumerated types, and every covered operation's functions.
pub open spec fn ops_module_text(ops: Seq<OperationS>) -> Seq<char> {
    "use std::ffi::*;\nuse std::ptr::null_mut;\nuse std::convert::TryInto;\nuse crate::bindings;\nuse crate::utils;\nuse crate::VipsImage;\nuse crate::VipsInterpolate;\nuse crate::VipsBlob;\nuse crate::error::*;\nuse crate::Result;\n\nconst NULL: *const c_void = null_mut();\n\n"@
        + sorted_enums_text(ops) + "\n"@ + methods_text(ops)
}

/// The generated error-taxonomy module: four fixed variants, then one per
/// covered operation, with matching display arms.
pub open spec fn error_module_text(ops: Seq<OperationS>) -> Seq<char> {
    "#[derive(Debug)]\npub enum Error {\n    InitializationError(&'static str),\n    IOError(&'static str),\n    LinearError,\n    GetpointError,\n"@
        + error_variants_text(ops)
        + "}\n\nimpl std::fmt::Display for Error {\n    fn fmt(&self, f: &mut std::fmt::Formatter<'_>) -> std::fmt::Result {\n        match self {\n            Error::InitializationError(msg) => write!(f, \"vips error: InitializationError - {}\", msg),\n            Error::IOError(msg) => write!(f, \"vips error: IOError - {}\", msg),\n            Error::LinearError => write!(f, \"vips error: LinearError. Check error buffer for more details\"),\n            Error::GetpointError => write!(f, \"vips error: GetpointError. Check error buffer for more details\"),\n"@
        + error_display_text(ops)
        + "        }\n    }\n}\n\nimpl std::error::Error for Error {}\n"@
}

#[verifier::rlimit(80)]
fn fold_artifacts(ops: &Vec<Operation>) -> (r: (String, String, String))
    requires
        forall|i: int| 0 <= i < ops@.len() ==> wf_operation(#[trigger] ops@[i]@),
    ensures
        r.0@ == methods_text(crate::model::op_views(ops@)),
        r.1@ == error_variants_text(crate::model::op_views(ops@)),
        r.2@ == error_display_text(crate::model::op_views(ops@)),
{
    let ghost ov = crate::model::op_views(ops@);
    let ghost pred = |o: OperationS| !blocklisted(o);
    let ghost fb = |o: OperationS| body_text(o);
    let ghost fe = |o: OperationS| error_variant_text(o);
    let ghost fd = |o: OperationS| error_display_line_text(o);
    let mut methods = String::new();
    let mut errors = String::new();
    let mut display = String::new();
    let mut i: usize = 0;
    proof {
        assert(ov.take(0).filter(pred) =~= Seq::<OperationS>::empty());
        assert(methods@ =~= concat_texts(kept_ops(ov.take(0)).map_values(fb)));
        assert(errors@ =~= concat_texts(kept_ops(ov.take(0)).map_values(fe)));
        assert(display@ =~= concat_texts(kept_ops(ov.take(0)).map_values(fd)));
    }
    while i < ops.len()
        invariant
            0 <= i <= ops@.len(),
            ov == crate::model::op_views(ops@),
            ov.len() == ops@.len(),
            pred == (|o: OperationS| !blocklisted(o)),
            fb == (|o: OperationS| body_text(o)),
            fe == (|o: OperationS| error_variant_text(o)),
            fd == (|o: OperationS| error_display_line_text(o)),
            forall|k: int| 0 <= k < ops@.len() ==> wf_operation(#[trigger] ops@[k]@),
            methods@ == concat_texts(kept_ops(ov.take(i as int)).map_values(fb)),
            errors@ == concat_texts(kept_ops(ov.take(i as int)).map_values(fe)),
            display@ == concat_texts(kept_ops(ov.take(i as int)).map_values(fd)),
        decreases ops@.len() - i,
    {
        let ghost kept0 = kept_ops(ov.take(i as int));
        proof {
            reveal(Seq::filter);
            assert(ov[i as int] == ops@[i as int]@);
            assert(ov.take(i as int + 1).drop_last() =~= ov.take(i as int));
            assert(ov.take(i as int + 1).last() == ov[i as int]);
        }
        let op = &ops[i];
        if !is_blocklisted(op) {
            let ghost o = ov[i as int];
            proof {
                assert(kept_ops(ov.take(i as int + 1)) =~= kept0.push(o));
                let qb = kept0.push(o).map_values(fb);
                let qe = kept0.push(o).map_values(fe);
                let qd = kept0.push(o).map_values(fd);
                assert(qb.drop_last() =~= kept0.map_values(fb));
                assert(qe.drop_last() =~= kept0.map_values(fe));
                assert(qd.drop_last() =~= kept0.map_values(fd));
                assert(qb.last() == fb(o));
                assert(qe.last() == fe(o));
                assert(qd.last() == fd(o));
                assert(concat_texts(qb) == concat_texts(qb.drop_last()) + qb.last());
                assert(concat_texts(qe) == concat_texts(qe.drop_last()) + qe.last());
                assert(concat_texts(qd) == concat_texts(qd.drop_last()) + qd.last());
            }
            let ghost methods0 = methods@;
            let b = op.body();
            methods.append(b.as_str());
            proof {
                assert(methods@ == concat_texts(kept_ops(ov.take(i as int + 1)).map_values(fb)));
            }
            let ghost errors0 = errors@;
            let ghost display0 = display@;
            let class = to_class_case(op.name.as_str());
            errors.append(class.as_str());
            errors.append("Error,\n");
            display.append("Error::");
            display.append(class.as_str());
            display.append("Error => write!(f, \"vips error: ");
            display.append(class.as_str());
            display.append("Error. Check error buffer for more details\"),\n");
            proof {
                assert(errors@ =~= errors0 + fe(o));
                assert(errors@ == concat_texts(kept_ops(ov.take(i as int + 1)).map_values(fe)));
                assert(display@ =~= display0 + fd(o));
                assert(display@ == concat_texts(kept_ops(ov.take(i as int + 1)).map_values(fd)));
            }
        } else {
            proof {
                assert(kept_ops(ov.take(i as int + 1)) =~= kept0);
            }
        }
        i = i + 1;
    }
    proof {
        assert(ov.take(ov.len() as int) =~= ov);
    }
    (methods, errors, display)
}

fn collect_enums(ops: &Vec<Operation>) -> (r: Vec<String>)
    ensures
        views_of(r@) == all_enums(crate::model::op_views(ops@)),
{
    let ghost ov = crate::model::op_views(ops@);
    let mut enum_texts: Vec<String> = Vec::new();
    let mut i: usize = 0;
    proof {
        assert(views_of(enum_texts@) =~= all_enums(ov.take(0)));
    }
    while i < ops.len()
        invariant
            0 <= i <= ops@.len(),
            ov == crate::model::op_views(ops@),
            ov.len() == ops@.len(),
            views_of(enum_texts@) == all_enums(ov.take(i as int)),
        decreases ops@.len() - i,
    {
        proof {
            assert(ov[i as int] == ops@[i as int]@);
        }
        let ghost enums0 = views_of(enum_texts@);
        let mut these = ops[i].enumerations();
        let ghost these_v = views_of(these@);
        enum_texts.append(&mut these);
        proof {
            let q = ov.take(i as int + 1);
            assert(q.drop_last() =~= ov.take(i as int));
            assert(q.last() == ov[i as int]);
            assert(all_enums(q) == all_enums(q.drop_last()) + op_enum_texts(q.last()));
            assert(views_of(enum_texts@) =~= enums0 + these_v);
            assert(views_of(enum_texts@) == all_enums(q));
        }
        i = i + 1;
    }
    proof {
        assert(ov.take(ov.len() as int) =~= ov);
    }
    enum_texts
}

/// Emits the operations module and the error-taxonomy module for the parsed
/// catalog. Both are functions of the operations alone: re-running
/// generation on byte-identical input produces byte-identical text.
pub fn generate_modules(ops: &Vec<Operation>) -> (r: (String, String))
    requires
        forall|i: int| 0 <= i < ops@.len() ==> wf_operation(#[trigger] ops@[i]@),
    ensures
        r.0@ == ops_module_text(crate::model::op_views(ops@)),
        r.1@ == error_module_text(crate::model::op_views(ops@)),
{
    let ghost ov = crate::model::op_views(ops@);
    let (methods, errors, display) = fold_artifacts(ops);
    let enum_texts = collect_enums(ops);
    let sorted = crate::dedup::sort_strings(enum_texts);
    let deduped = crate::dedup::dedup_strings(sorted);
    let enums_joined = join_strings(&deduped, "\n");
    let mut ops_module = String::new();
    ops_module.append(
        "use std::ffi::*;\nuse std::ptr::null_mut;\nuse std::convert::TryInto;\nuse crate::bindings;\nuse crate::utils;\nuse crate::VipsImage;\nuse crate::VipsInterpolate;\nuse crate::VipsBlob;\nuse crate::error::*;\nuse crate::Result;\n\nconst NULL: *const c_void = null_mut();\n\n",
    );
    ops_module.append(enums_joined.as_str());
    ops_module.append("\n");
    ops_module.append(methods.as_str());
    let mut error_module = String::new();
    error_module.append(
        "#[derive(Debug)]\npub enum Error {\n    InitializationError(&'static str),\n    IOError(&'static str),\n    LinearError,\n    GetpointError,\n",
    );
    error_module.append(errors.as_str());
    error_module.append(
        "}\n\nimpl std::fmt::Display for Error {\n    fn fmt(&self, f: &mut std::fmt::Formatter<'_>) -> std::fmt::Result {\n        match self {\n            Error::InitializationError(msg) => write!(f, \"vips error: InitializationError - {}\", msg),\n            Error::IOError(msg) => write!(f, \"vips error: IOError - {}\", msg),\n            Error::LinearError => write!(f, \"vips error: LinearError. Check error buffer for more details\"),\n            Error::GetpointError => write!(f, \"vips error: GetpointError. Check error buffer for more details\"),\n",
    );
    error_module.append(display.as_str());
    error_module.append("        }\n    }\n}\n\nimpl std::error::Error for Error {}\n");
    proof {
        assert(ops_module@ =~= ops_module_text(ov));
        assert(error_module@ =~= error_module_text(ov));
    }
    (ops_module, error_module)
}

/// Parses an introspection dump and emits the operations module and the
/// error-taxonomy module, or fails with the first fatal parse error. The
/// whole run is a function of the dump's text.
pub fn generate_from_dump(text: &str) -> (r: Result<(String, String), crate::parse::ParseError>)
    ensures
        match r {
            Ok(modules) => crate::parse::parse_dump_text(text@) matches Ok(ops) && modules.0@
                == ops_module_text(ops) && modules.1@ == error_module_text(ops),
            Err(e) => crate::parse::parse_dump_text(text@) == Err::<Seq<OperationS>, _>(e),
        },
{
    match crate::parse::parse_dump(text) {
        Err(e) => Err(e),
        Ok(ops) => {
            let modules = generate_modules(&ops);
            Ok(modules)
        }
    }
}

} // verus!
