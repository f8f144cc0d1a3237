//! The intermediate representation of the operation catalog: operations,
//! parameters, the closed set of parameter kinds, and enumeration entries,
//! each with a mathematical view.

use vstd::prelude::*;
use crate::text::is_float_text;

verus! {

/// One entry of an enumerated parameter kind: the native symbolic constant
/// name, its short nickname, and its integer value.
pub struct Enumeration {
    pub name: String,
    pub nick: String,
    pub value: i32,
}

/// The view of an `Enumeration`.
pub struct EnumerationS {
    pub name: Seq<char>,
    pub nick: Seq<char>,
    pub value: i32,
}

impl View for Enumeration {
    type V = EnumerationS;

    open spec fn view(&self) -> EnumerationS {
        EnumerationS { name: self.name@, nick: self.nick@, value: self.value }
    }
}

/// How a parameter's value crosses the native boundary. Floating-point
/// bounds and defaults are carried as their literal text, exactly as the
/// catalog states them.
pub enum ParamType {
    Int { min: i32, max: i32, default: i32 },
    UInt { min: u64, max: u64, default: u64 },
    Double { min: String, max: String, default: String },
    Str,
    Enum { name: String, entries: Vec<Enumeration>, default: i32 },
    Bool { default: bool },
    ArrayInt,
    ArrayDouble,
    ArrayImage,
    ArrayByte,
    VipsInterpolate,
    VipsImage { prev: Option<String> },
    VipsBlob,
}

/// The view of a `ParamType`.
pub enum ParamTypeS {
    Int { min: i32, max: i32, default: i32 },
    UInt { min: u64, max: u64, default: u64 },
    Double { min: Seq<char>, max: Seq<char>, default: Seq<char> },
    Str,
    Enum { name: Seq<char>, entries: Seq<EnumerationS>, default: i32 },
    Bool { default: bool },
    ArrayInt,
    ArrayDouble,
    ArrayImage,
    ArrayByte,
    VipsInterpolate,
    VipsImage { prev: Option<Seq<char>> },
    VipsBlob,
}

impl View for ParamType {
    type V = ParamTypeS;

    open spec fn view(&self) -> ParamTypeS {
        match self {
            ParamType::Int { min, max, default } => ParamTypeS::Int {
                min: *min,
                max: *max,
                default: *default,
            },
            ParamType::UInt { min, max, default } => ParamTypeS::UInt {
                min: *min,
                max: *max,
                default: *default,
            },
            ParamType::Double { min, max, default } => ParamTypeS::Double {
                min: min@,
                max: max@,
                default: default@,
            },
            ParamType::Str => ParamTypeS::Str,
            ParamType::Enum { name, entries, default } => ParamTypeS::Enum {
                name: name@,
                entries: entries@.map_values(|e: Enumeration| e@),
                default: *default,
            },
            ParamType::Bool { default } => ParamTypeS::Bool { default: *default },
            ParamType::ArrayInt => ParamTypeS::ArrayInt,
            ParamType::ArrayDouble => ParamTypeS::ArrayDouble,
            ParamType::ArrayImage => ParamTypeS::ArrayImage,
            ParamType::ArrayByte => ParamTypeS::ArrayByte,
            ParamType::VipsInterpolate => ParamTypeS::VipsInterpolate,
            ParamType::VipsImage { prev } => ParamTypeS::VipsImage {
                prev: match prev {
                    Option::Some(p) => Option::Some(p@),
                    Option::None => Option::None,
                },
            },
            ParamType::VipsBlob => ParamTypeS::VipsBlob,
        }
    }
}

/// One argument or return slot of an operation.
pub struct Parameter {
    /// Position among the required parameters; outputs also consume a slot.
    pub order: u8,
    /// Normalized target identifier.
    pub name: String,
    /// The key or position used when calling into the native library.
    pub vips_name: String,
    /// The catalog's short label, class-cased.
    pub nick: String,
    pub description: String,
    pub param_type: ParamType,
}

/// The view of a `Parameter`.
pub struct ParameterS {
    pub order: u8,
    pub name: Seq<char>,
    pub vips_name: Seq<char>,
    pub nick: Seq<char>,
    pub description: Seq<char>,
    pub param_type: ParamTypeS,
}

impl View for Parameter {
    type V = ParameterS;

    open spec fn view(&self) -> ParameterS {
        ParameterS {
            order: self.order,
            name: self.name@,
            vips_name: self.vips_name@,
            nick: self.nick@,
            description: self.description@,
            param_type: self.param_type@,
        }
    }
}

/// One callable native-library operation and its classified parameters.
pub struct Operation {
    /// Normalized target identifier.
    pub name: String,
    /// The operation's name in the native catalog.
    pub vips_name: String,
    /// The native operation class, used for special-casing and naming.
    pub vips_operation: String,
    pub description: String,
    /// Positional parameters, in native call order.
    pub required: Vec<Parameter>,
    /// Parameters passed by name.
    pub optional: Vec<Parameter>,
    /// Return slots.
    pub output: Vec<Parameter>,
}

/// The view of an `Operation`.
pub struct OperationS {
    pub name: Seq<char>,
    pub vips_name: Seq<char>,
    pub vips_operation: Seq<char>,
    pub description: Seq<char>,
    pub required: Seq<ParameterS>,
    pub optional: Seq<ParameterS>,
    pub output: Seq<ParameterS>,
}

impl View for Operation {
    type V = OperationS;

    open spec fn view(&self) -> OperationS {
        OperationS {
            name: self.name@,
            vips_name: self.vips_name@,
            vips_operation: self.vips_operation@,
            description: self.description@,
            required: self.required@.map_values(|p: Parameter| p@),
            optional: self.optional@.map_values(|p: Parameter| p@),
            output: self.output@.map_values(|p: Parameter| p@),
        }
    }
}

/// The views of a vector of parameters.
pub open spec fn param_views(v: Seq<Parameter>) -> Seq<ParameterS> {
    v.map_values(|p: Parameter| p@)
}

/// The views of a vector of operations.
pub open spec fn op_views(v: Seq<Operation>) -> Seq<OperationS> {
    v.map_values(|o: Operation| o@)
}

/// The entries of an enumeration whose value equals its declared default.
pub open spec fn default_matches(entries: Seq<EnumerationS>, default: i32) -> Seq<EnumerationS> {
    entries.filter(|e: EnumerationS| e.value == default)
}

/// The entry an enumeration's default resolves to; meaningful only when the
/// kind is well formed.
pub open spec fn default_entry(entries: Seq<EnumerationS>, default: i32) -> EnumerationS {
    default_matches(entries, default)[0]
}

/// Well-formedness of a parameter kind: an enumeration's default matches
/// exactly one entry, and floating-point bounds and defaults are well-formed
/// literals.
pub open spec fn wf_param_type(t: ParamTypeS) -> bool {
    match t {
        ParamTypeS::Enum { entries, default, .. } => default_matches(entries, default).len() == 1,
        ParamTypeS::Double { min, max, default } => is_float_text(min) && is_float_text(max)
            && is_float_text(default),
        _ => true,
    }
}

/// Well-formedness of a parameter.
pub open spec fn wf_param(p: ParameterS) -> bool {
    wf_param_type(p.param_type)
}

/// Well-formedness of an operation: every parameter is well formed.
pub open spec fn wf_operation(op: OperationS) -> bool {
    &&& forall|i: int| 0 <= i < op.required.len() ==> wf_param(#[trigger] op.required[i])
    &&& forall|i: int| 0 <= i < op.optional.len() ==> wf_param(#[trigger] op.optional[i])
    &&& forall|i: int| 0 <= i < op.output.len() ==> wf_param(#[trigger] op.output[i])
}

} // verus!
