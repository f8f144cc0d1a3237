//! The catalog parser: turns the introspection dump's text into operations
//! with classified parameters, or fails with a fatal diagnostic. The grammar
//! is line-oriented; blank lines are ignored. A first pass chunks the lines
//! into per-operation blocks; a second pass classifies each block.

use vstd::prelude::*;
use crate::model::{
    default_matches, op_views, param_views, Enumeration, EnumerationS, Operation, OperationS,
    ParamType, ParamTypeS, Parameter, ParameterS,
};
use crate::names::{class_of, snake_of, to_class_case, to_snake_case};
use crate::text::{
    has_prefix, is_float_literal, is_float_text, is_i32_text, is_u64_text, parse_i32, parse_u64,
    signed_val, split_seq, split_str, starts_with, str_eq, digits_val, unsigned_body, views_of,
};

verus! {

/// Why a generation run aborts: the catalog text deviates from the grammar,
/// or its data is internally inconsistent.
#[derive(Clone, Copy, Debug, PartialEq, Eq, Structural)]
pub enum ParseError {
    /// A line stands where an operation should begin.
    StrayLine,
    /// An operation header has no native-name and group fields.
    MalformedHeader,
    /// An operation's required-parameter section never begins.
    MissingRequired,
    /// An operation's optional-parameter section never begins.
    MissingOptional,
    /// A parameter block ends before its terminator, or is too short.
    TruncatedBlock,
    /// A type descriptor carries an unknown tag.
    UnsupportedType,
    /// A numeric field does not parse as its expected integer type.
    BadNumber,
    /// A floating-point bound or default is not a well-formed literal.
    BadFloat,
    /// An enumeration entry line has too few fields.
    BadEnumEntry,
    /// An enumeration's default value matches no entry, or several.
    BadEnumDefault,
    /// More required-parameter blocks than order slots.
    TooManyParameters,
}

/// The diagnostic text of each fatal error.
pub open spec fn parse_error_message(e: ParseError) -> Seq<char> {
    match e {
        ParseError::StrayLine => "line outside any operation block"@,
        ParseError::MalformedHeader => "operation header without name and group"@,
        ParseError::MissingRequired => "required-parameter section never begins"@,
        ParseError::MissingOptional => "optional-parameter section never begins"@,
        ParseError::TruncatedBlock => "parameter block cut short"@,
        ParseError::UnsupportedType => "unsupported type descriptor"@,
        ParseError::BadNumber => "cannot parse number"@,
        ParseError::BadFloat => "cannot parse floating-point literal"@,
        ParseError::BadEnumEntry => "enumeration entry with too few fields"@,
        ParseError::BadEnumDefault => "enumeration default matches no single entry"@,
        ParseError::TooManyParameters => "too many required parameters"@,
    }
}

impl ParseError {
    /// A diagnostic for the build log.
    pub fn message(&self) -> (r: &'static str)
        ensures
            r@ == parse_error_message(*self),
    {
        match self {
            ParseError::StrayLine => "line outside any operation block",
            ParseError::MalformedHeader => "operation header without name and group",
            ParseError::MissingRequired => "required-parameter section never begins",
            ParseError::MissingOptional => "optional-parameter section never begins",
            ParseError::TruncatedBlock => "parameter block cut short",
            ParseError::UnsupportedType => "unsupported type descriptor",
            ParseError::BadNumber => "cannot parse number",
            ParseError::BadFloat => "cannot parse floating-point literal",
            ParseError::BadEnumEntry => "enumeration entry with too few fields",
            ParseError::BadEnumDefault => "enumeration default matches no single entry",
            ParseError::TooManyParameters => "too many required parameters",
        }
    }
}

/// One operation's lines, chunked but not yet classified.
pub struct RawOp {
    /// The `native-name:native-group` line.
    pub header: String,
    /// The human-readable summary line.
    pub description: String,
    /// The parameter blocks of the required section.
    pub req_blocks: Vec<Vec<String>>,
    /// The parameter blocks of the optional section.
    pub opt_blocks: Vec<Vec<String>>,
}

/// The view of a `RawOp`.
pub struct RawOpS {
    pub header: Seq<char>,
    pub description: Seq<char>,
    pub req_blocks: Seq<Seq<Seq<char>>>,
    pub opt_blocks: Seq<Seq<Seq<char>>>,
}

/// The views of a sequence of line blocks.
pub open spec fn block_views(v: Seq<Vec<String>>) -> Seq<Seq<Seq<char>>> {
    v.map_values(|b: Vec<String>| views_of(b@))
}

impl View for RawOp {
    type V = RawOpS;

    open spec fn view(&self) -> RawOpS {
        RawOpS {
            header: self.header@,
            description: self.description@,
            req_blocks: block_views(self.req_blocks@),
            opt_blocks: block_views(self.opt_blocks@),
        }
    }
}

/// Scans one parameter block: the lines before the next terminator line,
/// which is consumed. Hitting a section boundary or the end first is fatal.
pub open spec fn scan_block(lines: Seq<Seq<char>>, i: int, stop_a: Seq<char>, stop_b: Seq<char>)
    -> Result<(Seq<Seq<char>>, int), ParseError>
    decreases lines.len() - i,
{
    if i < 0 || i >= lines.len() {
        Err(ParseError::TruncatedBlock)
    } else if lines[i] == "PARAM:"@ {
        Ok((Seq::empty(), i + 1))
    } else if lines[i] == stop_a || lines[i] == stop_b {
        Err(ParseError::TruncatedBlock)
    } else {
        match scan_block(lines, i + 1, stop_a, stop_b) {
            Ok((b, j)) => Ok((seq![lines[i]] + b, j)),
            Err(e) => Err(e),
        }
    }
}

/// Scans the required section: parameter blocks up to the line that begins
/// the optional section, which is consumed.
pub open spec fn scan_required(lines: Seq<Seq<char>>, i: int) -> Result<
    (Seq<Seq<Seq<char>>>, int),
    ParseError,
>
    decreases lines.len() - i,
{
    if i < 0 || i >= lines.len() {
        Err(ParseError::MissingOptional)
    } else if lines[i] == "OPTIONAL:"@ {
        Ok((Seq::empty(), i + 1))
    } else if lines[i] == "OPERATION:"@ {
        Err(ParseError::MissingOptional)
    } else {
        match scan_block(lines, i, "OPTIONAL:"@, "OPERATION:"@) {
            Ok((b, j)) => if i < j <= lines.len() {
                match scan_required(lines, j) {
                    Ok((bs, k)) => Ok((seq![b] + bs, k)),
                    Err(e) => Err(e),
                }
            } else {
                Err(ParseError::TruncatedBlock)
            },
            Err(e) => Err(e),
        }
    }
}

/// Scans the optional section: parameter blocks up to the next operation
/// line, which is left in place, or the end of the dump.
pub open spec fn scan_optional(lines: Seq<Seq<char>>, i: int) -> Result<
    (Seq<Seq<Seq<char>>>, int),
    ParseError,
>
    decreases lines.len() - i,
{
    if i < 0 || i >= lines.len() {
        Ok((Seq::empty(), if i < 0 { 0 } else { i }))
    } else if lines[i] == "OPERATION:"@ {
        Ok((Seq::empty(), i))
    } else {
        match scan_block(lines, i, "OPERATION:"@, "OPERATION:"@) {
            Ok((b, j)) => if i < j <= lines.len() {
                match scan_optional(lines, j) {
                    Ok((bs, k)) => Ok((seq![b] + bs, k)),
                    Err(e) => Err(e),
                }
            } else {
                Err(ParseError::TruncatedBlock)
            },
            Err(e) => Err(e),
        }
    }
}

/// Scans the operation header material: the lines before the one that
/// begins the required section, which is consumed.
pub open spec fn scan_header(lines: Seq<Seq<char>>, i: int) -> Result<
    (Seq<Seq<char>>, int),
    ParseError,
>
    decreases lines.len() - i,
{
    if i < 0 || i >= lines.len() {
        Err(ParseError::MissingRequired)
    } else if lines[i] == "REQUIRED:"@ {
        Ok((Seq::empty(), i + 1))
    } else if lines[i] == "OPERATION:"@ {
        Err(ParseError::MissingRequired)
    } else {
        match scan_header(lines, i + 1) {
            Ok((h, j)) => Ok((seq![lines[i]] + h, j)),
            Err(e) => Err(e),
        }
    }
}

/// Chunks one operation, starting right after its `OPERATION:` line.
pub open spec fn chunk_op(lines: Seq<Seq<char>>, i: int) -> Result<(RawOpS, int), ParseError> {
    match scan_header(lines, i) {
        Err(e) => Err(e),
        Ok((hdr, j)) => if hdr.len() < 2 {
            Err(ParseError::MalformedHeader)
        } else {
            match scan_required(lines, j) {
                Err(e) => Err(e),
                Ok((req, k)) => match scan_optional(lines, k) {
                    Err(e) => Err(e),
                    Ok((opt, m)) => Ok(
                        (
                            RawOpS {
                                header: hdr[0],
                                description: hdr[1],
                                req_blocks: req,
                                opt_blocks: opt,
                            },
                            m,
                        ),
                    ),
                },
            }
        },
    }
}

/// Chunks the whole dump into raw operations.
pub open spec fn chunk_dump(lines: Seq<Seq<char>>, i: int) -> Result<Seq<RawOpS>, ParseError>
    decreases lines.len() - i,
{
    if i < 0 || i >= lines.len() {
        Ok(Seq::empty())
    } else if lines[i] != "OPERATION:"@ {
        Err(ParseError::StrayLine)
    } else {
        match chunk_op(lines, i + 1) {
            Err(e) => Err(e),
            Ok((op, j)) => if i < j <= lines.len() {
                match chunk_dump(lines, j) {
                    Ok(ops) => Ok(seq![op] + ops),
                    Err(e) => Err(e),
                }
            } else {
                Err(ParseError::StrayLine)
            },
        }
    }
}

pub proof fn lemma_scan_block_advances(lines: Seq<Seq<char>>, i: int, stop_a: Seq<char>, stop_b: Seq<char>)
    ensures
        scan_block(lines, i, stop_a, stop_b) matches Ok((b, j)) ==> i < j <= lines.len() && b.len()
            == j - i - 1,
    decreases lines.len() - i,
{
    if 0 <= i < lines.len() {
        lemma_scan_block_advances(lines, i + 1, stop_a, stop_b);
    }
}

pub proof fn lemma_scan_required_advances(lines: Seq<Seq<char>>, i: int)
    ensures
        scan_required(lines, i) matches Ok((bs, k)) ==> i < k <= lines.len(),
    decreases lines.len() - i,
{
    if 0 <= i < lines.len() {
        lemma_scan_block_advances(lines, i, "OPTIONAL:"@, "OPERATION:"@);
        match scan_block(lines, i, "OPTIONAL:"@, "OPERATION:"@) {
            Ok((b, j)) => lemma_scan_required_advances(lines, j),
            Err(_) => (),
        }
    }
}

pub proof fn lemma_scan_optional_advances(lines: Seq<Seq<char>>, i: int)
    requires
        i <= lines.len(),
    ensures
        scan_optional(lines, i) matches Ok((bs, k)) ==> i <= k <= lines.len(),
    decreases lines.len() - i,
{
    if 0 <= i < lines.len() {
        lemma_scan_block_advances(lines, i, "OPERATION:"@, "OPERATION:"@);
        match scan_block(lines, i, "OPERATION:"@, "OPERATION:"@) {
            Ok((b, j)) => lemma_scan_optional_advances(lines, j),
            Err(_) => (),
        }
    }
}

pub proof fn lemma_scan_header_advances(lines: Seq<Seq<char>>, i: int)
    ensures
        scan_header(lines, i) matches Ok((h, j)) ==> i < j <= lines.len(),
    decreases lines.len() - i,
{
    if 0 <= i < lines.len() {
        lemma_scan_header_advances(lines, i + 1);
    }
}

pub proof fn lemma_chunk_op_advances(lines: Seq<Seq<char>>, i: int)
    ensures
        chunk_op(lines, i) matches Ok((op, m)) ==> i < m <= lines.len(),
{
    lemma_scan_header_advances(lines, i);
    match scan_header(lines, i) {
        Ok((hdr, j)) => {
            lemma_scan_required_advances(lines, j);
            match scan_required(lines, j) {
                Ok((req, k)) => lemma_scan_optional_advances(lines, k),
                Err(_) => (),
            }
        }
        Err(_) => (),
    }
}

fn scan_block_exec(lines: &Vec<String>, i: usize, stop_a: &str, stop_b: &str) -> (r: Result<
    (Vec<String>, usize),
    ParseError,
>)
    requires
        i <= lines@.len(),
    ensures
        match r {
            Ok((b, j)) => scan_block(views_of(lines@), i as int, stop_a@, stop_b@) == Ok::<
                _,
                ParseError,
            >((views_of(b@), j as int)) && j <= lines@.len(),
            Err(e) => scan_block(views_of(lines@), i as int, stop_a@, stop_b@) == Err::<
                (Seq<Seq<char>>, int),
                _,
            >(e),
        },
    decreases lines@.len() - i,
{
    let ghost lv = views_of(lines@);
    proof {
        assert(lv.len() == lines@.len());
    }
    if i >= lines.len() {
        return Err(ParseError::TruncatedBlock);
    }
    proof {
        assert(lv[i as int] == lines@[i as int]@);
    }
    if str_eq(lines[i].as_str(), "PARAM:") {
        let empty: Vec<String> = Vec::new();
        proof {
            assert(views_of(empty@) =~= Seq::<Seq<char>>::empty());
        }
        return Ok((empty, i + 1));
    }
    if str_eq(lines[i].as_str(), stop_a) || str_eq(lines[i].as_str(), stop_b) {
        return Err(ParseError::TruncatedBlock);
    }
    match scan_block_exec(lines, i + 1, stop_a, stop_b) {
        Err(e) => Err(e),
        Ok((mut b, j)) => {
            let ghost b0 = b@;
            b.insert(0, lines[i].clone());
            proof {
                assert(b@ =~= seq![lines@[i as int]] + b0);
                assert(views_of(b@) =~= seq![lv[i as int]] + views_of(b0));
            }
            Ok((b, j))
        }
    }
}

/// The enumeration entries read from the lines `block[k..end]`, one entry
/// per `value:nick:name` line.
pub open spec fn entries_of(block: Seq<Seq<char>>, k: int, end: int) -> Result<
    Seq<EnumerationS>,
    ParseError,
>
    decreases end - k,
{
    if k >= end {
        Ok(Seq::empty())
    } else {
        let es = split_seq(block[k], ':');
        if es.len() < 3 {
            Err(ParseError::BadEnumEntry)
        } else if !is_i32_text(es[0]) {
            Err(ParseError::BadNumber)
        } else {
            match entries_of(block, k + 1, end) {
                Err(e) => Err(e),
                Ok(rest) => Ok(
                    seq![
                        EnumerationS {
                            name: es[2],
                            nick: es[1],
                            value: signed_val(es[0]) as i32,
                        },
                    ] + rest,
                ),
            }
        }
    }
}

/// Classifies a parameter block's type descriptor line. An unrecognized tag
/// is fatal; so are malformed numeric fields and an enumeration default that
/// does not match exactly one entry.
pub open spec fn classify_type(block: Seq<Seq<char>>, prev: Option<Seq<char>>) -> Result<
    ParamTypeS,
    ParseError,
> {
    let tl = block[3];
    if has_prefix(tl, "string"@) {
        Ok(ParamTypeS::Str)
    } else if has_prefix(tl, "VipsImage"@) {
        Ok(ParamTypeS::VipsImage { prev })
    } else if has_prefix(tl, "VipsBlob"@) {
        Ok(ParamTypeS::VipsBlob)
    } else if has_prefix(tl, "VipsInterpolate"@) {
        Ok(ParamTypeS::VipsInterpolate)
    } else if has_prefix(tl, "bool"@) {
        let ps = split_seq(tl, ':');
        if ps.len() < 2 {
            Err(ParseError::BadNumber)
        } else {
            Ok(ParamTypeS::Bool { default: ps[1] == "1"@ })
        }
    } else if has_prefix(tl, "int"@) {
        let ps = split_seq(tl, ':');
        if ps.len() < 4 {
            Err(ParseError::BadNumber)
        } else if !(is_i32_text(ps[1]) && is_i32_text(ps[2]) && is_i32_text(ps[3])) {
            Err(ParseError::BadNumber)
        } else {
            Ok(
                ParamTypeS::Int {
                    min: signed_val(ps[1]) as i32,
                    max: signed_val(ps[2]) as i32,
                    default: signed_val(ps[3]) as i32,
                },
            )
        }
    } else if has_prefix(tl, "double"@) {
        let ps = split_seq(tl, ':');
        if ps.len() < 4 {
            Err(ParseError::BadNumber)
        } else if !(is_float_text(ps[1]) && is_float_text(ps[2]) && is_float_text(ps[3])) {
            Err(ParseError::BadFloat)
        } else {
            Ok(ParamTypeS::Double { min: ps[1], max: ps[2], default: ps[3] })
        }
    } else if has_prefix(tl, "uint64"@) {
        let ps = split_seq(tl, ':');
        if ps.len() < 4 {
            Err(ParseError::BadNumber)
        } else if !(is_u64_text(ps[1]) && is_u64_text(ps[2]) && is_u64_text(ps[3])) {
            Err(ParseError::BadNumber)
        } else {
            Ok(
                ParamTypeS::UInt {
                    min: digits_val(unsigned_body(ps[1])) as u64,
                    max: digits_val(unsigned_body(ps[2])) as u64,
                    default: digits_val(unsigned_body(ps[3])) as u64,
                },
            )
        }
    } else if has_prefix(tl, "byte-data"@) {
        Ok(ParamTypeS::ArrayByte)
    } else if has_prefix(tl, "array of int"@) {
        Ok(ParamTypeS::ArrayInt)
    } else if has_prefix(tl, "array of double"@) {
        Ok(ParamTypeS::ArrayDouble)
    } else if has_prefix(tl, "array of images"@) {
        Ok(ParamTypeS::ArrayImage)
    } else if has_prefix(tl, "enum"@) || has_prefix(tl, "flags"@) {
        let pd = split_seq(tl, '-');
        if pd.len() < 2 {
            Err(ParseError::UnsupportedType)
        } else {
            match entries_of(block, 4, block.len() - 1) {
                Err(e) => Err(e),
                Ok(es) => {
                    let dl = block[block.len() - 1];
                    if !is_i32_text(dl) {
                        Err(ParseError::BadNumber)
                    } else {
                        let d = signed_val(dl) as i32;
                        if default_matches(es, d).len() != 1 {
                            Err(ParseError::BadEnumDefault)
                        } else {
                            Ok(ParamTypeS::Enum { name: pd[1], entries: es, default: d })
                        }
                    }
                }
            }
        }
    } else {
        Err(ParseError::UnsupportedType)
    }
}

/// Builds one parameter from its block: the raw name (with the output
/// prefix stripped and reserved call-site words suffixed), nickname,
/// description, and classified type. Returns whether the parameter is an
/// output slot.
pub open spec fn build_param(block: Seq<Seq<char>>, order: u8, prev: Option<Seq<char>>) -> Result<
    (bool, ParameterS),
    ParseError,
> {
    if block.len() < 4 {
        Err(ParseError::TruncatedBlock)
    } else {
        let raw0 = block[0];
        let is_output = has_prefix(raw0, "OUTPUT:"@);
        let pname0 = if is_output {
            raw0.skip("OUTPUT:"@.len() as int)
        } else {
            raw0
        };
        let pname = if pname0 == "in"@ || pname0 == "ref"@ {
            pname0 + "p"@
        } else {
            pname0
        };
        match classify_type(block, prev) {
            Err(e) => Err(e),
            Ok(t) => Ok(
                (
                    is_output,
                    ParameterS {
                        order,
                        name: snake_of(pname),
                        vips_name: pname,
                        nick: class_of(block[1]),
                        description: block[2],
                        param_type: t,
                    },
                ),
            ),
        }
    }
}

fn entries_exec(block: &Vec<String>, k: usize, end: usize) -> (r: Result<
    Vec<Enumeration>,
    ParseError,
>)
    requires
        end <= block@.len(),
    ensures
        match r {
            Ok(es) => entries_of(views_of(block@), k as int, end as int) == Ok::<_, ParseError>(
                es@.map_values(|e: Enumeration| e@),
            ),
            Err(e) => entries_of(views_of(block@), k as int, end as int) == Err::<
                Seq<EnumerationS>,
                _,
            >(e),
        },
    decreases end - k,
{
    let ghost bv = views_of(block@);
    if k >= end {
        let empty: Vec<Enumeration> = Vec::new();
        proof {
            assert(empty@.map_values(|e: Enumeration| e@) =~= Seq::<EnumerationS>::empty());
        }
        return Ok(empty);
    }
    proof {
        assert(bv[k as int] == block@[k as int]@);
    }
    let es = split_str(block[k].as_str(), ':');
    let ghost esv = split_seq(bv[k as int], ':');
    if es.len() < 3 {
        return Err(ParseError::BadEnumEntry);
    }
    proof {
        assert(esv[0] == es@[0]@);
        assert(esv[1] == es@[1]@);
        assert(esv[2] == es@[2]@);
    }
    let value = match parse_i32(es[0].as_str()) {
        Option::None => {
            return Err(ParseError::BadNumber);
        }
        Option::Some(v) => v,
    };
    match entries_exec(block, k + 1, end) {
        Err(e) => Err(e),
        Ok(mut rest) => {
            let ghost rest0 = rest@;
            let entry = Enumeration { name: es[2].clone(), nick: es[1].clone(), value };
            rest.insert(0, entry);
            proof {
                assert(rest@ =~= seq![rest@[0]] + rest0);
                assert(rest@.map_values(|e: Enumeration| e@) =~= seq![rest@[0]@] + rest0.map_values(
                    |e: Enumeration| e@,
                ));
            }
            Ok(rest)
        }
    }
}

fn classify_type_exec(block: &Vec<String>, prev: Option<String>) -> (r: Result<
    ParamType,
    ParseError,
>)
    requires
        block@.len() >= 4,
    ensures
        match r {
            Ok(t) => classify_type(views_of(block@), option_view(prev)) == Ok::<_, ParseError>(t@)
                && crate::model::wf_param_type(t@),
            Err(e) => classify_type(views_of(block@), option_view(prev)) == Err::<ParamTypeS, _>(e),
        },
{
    let ghost bv = views_of(block@);
    let ghost prev_v = option_view(prev);
    proof {
        assert(bv[3] == block@[3]@);
    }
    let tl = &block[3];
    if starts_with(tl.as_str(), "string") {
        return Ok(ParamType::Str);
    }
    if starts_with(tl.as_str(), "VipsImage") {
        let t = ParamType::VipsImage { prev };
        proof {
            assert(t@ == (ParamTypeS::VipsImage { prev: prev_v }));
        }
        return Ok(t);
    }
    if starts_with(tl.as_str(), "VipsBlob") {
        return Ok(ParamType::VipsBlob);
    }
    if starts_with(tl.as_str(), "VipsInterpolate") {
        return Ok(ParamType::VipsInterpolate);
    }
    if starts_with(tl.as_str(), "bool") {
        let ps = split_str(tl.as_str(), ':');
        let ghost psv = split_seq(bv[3], ':');
        if ps.len() < 2 {
            return Err(ParseError::BadNumber);
        }
        proof {
            assert(psv[1] == ps@[1]@);
        }
        let default = str_eq(ps[1].as_str(), "1");
        return Ok(ParamType::Bool { default });
    }
    if starts_with(tl.as_str(), "int") {
        let ps = split_str(tl.as_str(), ':');
        let ghost psv = split_seq(bv[3], ':');
        if ps.len() < 4 {
            return Err(ParseError::BadNumber);
        }
        proof {
            assert(psv[1] == ps@[1]@);
            assert(psv[2] == ps@[2]@);
            assert(psv[3] == ps@[3]@);
        }
        let min = match parse_i32(ps[1].as_str()) {
            Option::Some(v) => v,
            Option::None => {
                return Err(ParseError::BadNumber);
            }
        };
        let max = match parse_i32(ps[2].as_str()) {
            Option::Some(v) => v,
            Option::None => {
                return Err(ParseError::BadNumber);
            }
        };
        let default = match parse_i32(ps[3].as_str()) {
            Option::Some(v) => v,
            Option::None => {
                return Err(ParseError::BadNumber);
            }
        };
        return Ok(ParamType::Int { min, max, default });
    }
    if starts_with(tl.as_str(), "double") {
        let ps = split_str(tl.as_str(), ':');
        let ghost psv = split_seq(bv[3], ':');
        if ps.len() < 4 {
            return Err(ParseError::BadNumber);
        }
        proof {
            assert(psv[1] == ps@[1]@);
            assert(psv[2] == ps@[2]@);
            assert(psv[3] == ps@[3]@);
        }
        if !(is_float_literal(ps[1].as_str()) && is_float_literal(ps[2].as_str())
            && is_float_literal(ps[3].as_str())) {
            return Err(ParseError::BadFloat);
        }
        return Ok(
            ParamType::Double { min: ps[1].clone(), max: ps[2].clone(), default: ps[3].clone() },
        );
    }
    if starts_with(tl.as_str(), "uint64") {
        let ps = split_str(tl.as_str(), ':');
        let ghost psv = split_seq(bv[3], ':');
        if ps.len() < 4 {
            return Err(ParseError::BadNumber);
        }
        proof {
            assert(psv[1] == ps@[1]@);
            assert(psv[2] == ps@[2]@);
            assert(psv[3] == ps@[3]@);
        }
        let min = match parse_u64(ps[1].as_str()) {
            Option::Some(v) => v,
            Option::None => {
                return Err(ParseError::BadNumber);
            }
        };
        let max = match parse_u64(ps[2].as_str()) {
            Option::Some(v) => v,
            Option::None => {
                return Err(ParseError::BadNumber);
            }
        };
        let default = match parse_u64(ps[3].as_str()) {
            Option::Some(v) => v,
            Option::None => {
                return Err(ParseError::BadNumber);
            }
        };
        return Ok(ParamType::UInt { min, max, default });
    }
    if starts_with(tl.as_str(), "byte-data") {
        return Ok(ParamType::ArrayByte);
    }
    if starts_with(tl.as_str(), "array of int") {
        return Ok(ParamType::ArrayInt);
    }
    if starts_with(tl.as_str(), "array of double") {
        return Ok(ParamType::ArrayDouble);
    }
    if starts_with(tl.as_str(), "array of images") {
        return Ok(ParamType::ArrayImage);
    }
    if starts_with(tl.as_str(), "enum") || starts_with(tl.as_str(), "flags") {
        let pd = split_str(tl.as_str(), '-');
        let ghost pdv = split_seq(bv[3], '-');
        if pd.len() < 2 {
            return Err(ParseError::UnsupportedType);
        }
        proof {
            assert(pdv[1] == pd@[1]@);
        }
        let end = block.len() - 1;
        match entries_exec(block, 4, end) {
            Err(e) => {
                return Err(e);
            }
            Ok(entries) => {
                proof {
                    assert(bv[block@.len() - 1] == block@[block@.len() - 1]@);
                }
                let dl = &block[block.len() - 1];
                let d = match parse_i32(dl.as_str()) {
                    Option::Some(v) => v,
                    Option::None => {
                        return Err(ParseError::BadNumber);
                    }
                };
                let ghost es_v = entries@.map_values(|e: Enumeration| e@);
                let mut matches_found: usize = 0;
                let mut j: usize = 0;
                proof {
                    assert(es_v.take(0).filter(|e: EnumerationS| e.value == d) =~= Seq::<
                        EnumerationS,
                    >::empty());
                }
                while j < entries.len()
                    invariant
                        0 <= j <= entries@.len(),
                        es_v == entries@.map_values(|e: Enumeration| e@),
                        es_v.len() == entries@.len(),
                        matches_found == es_v.take(j as int).filter(
                            |e: EnumerationS| e.value == d,
                        ).len(),
                        matches_found <= j,
                    decreases entries@.len() - j,
                {
                    proof {
                        let p = |e: EnumerationS| e.value == d;
                        assert(es_v.take(j as int + 1).drop_last() =~= es_v.take(j as int));
                        assert(es_v.take(j as int + 1).last() == es_v[j as int]);
                        assert(es_v[j as int] == entries@[j as int]@);
                        reveal(Seq::filter);
                        assert(es_v.take(j as int + 1).filter(p).len() == if p(es_v[j as int]) {
                            es_v.take(j as int).filter(p).len() + 1
                        } else {
                            es_v.take(j as int).filter(p).len()
                        });
                        es_v.take(j as int).lemma_filter_len(p);
                    }
                    if entries[j].value == d {
                        matches_found = matches_found + 1;
                    }
                    j = j + 1;
                }
                proof {
                    assert(es_v.take(es_v.len() as int) =~= es_v);
                }
                if matches_found != 1 {
                    return Err(ParseError::BadEnumDefault);
                }
                return Ok(ParamType::Enum { name: pd[1].clone(), entries, default: d });
            }
        }
    }
    Err(ParseError::UnsupportedType)
}

/// The view of an optional string.
pub open spec fn option_view(o: Option<String>) -> Option<Seq<char>> {
    match o {
        Option::Some(p) => Option::Some(p@),
        Option::None => Option::None,
    }
}

fn build_param_exec(block: &Vec<String>, order: u8, prev: Option<String>) -> (r: Result<
    (bool, Parameter),
    ParseError,
>)
    ensures
        match r {
            Ok((is_out, p)) => build_param(views_of(block@), order, option_view(prev)) == Ok::<
                _,
                ParseError,
            >((is_out, p@)) && crate::model::wf_param(p@),
            Err(e) => build_param(views_of(block@), order, option_view(prev)) == Err::<
                (bool, ParameterS),
                _,
            >(e),
        },
{
    let ghost bv = views_of(block@);
    if block.len() < 4 {
        return Err(ParseError::TruncatedBlock);
    }
    proof {
        assert(bv[0] == block@[0]@);
        assert(bv[1] == block@[1]@);
        assert(bv[2] == block@[2]@);
        reveal_strlit("OUTPUT:");
        assert("OUTPUT:"@.len() == 7);
    }
    let raw0 = &block[0];
    let is_output = starts_with(raw0.as_str(), "OUTPUT:");
    let pname0: String = if is_output {
        let n = raw0.as_str().unicode_len();
        let stripped = raw0.as_str().substring_char(7, n);
        proof {
            assert(stripped@ =~= raw0@.skip(7));
        }
        stripped.to_owned()
    } else {
        raw0.clone()
    };
    let reserved = str_eq(pname0.as_str(), "in") || str_eq(pname0.as_str(), "ref");
    let pname: String = if reserved {
        let mut t = pname0;
        t.append("p");
        t
    } else {
        pname0
    };
    match classify_type_exec(block, prev) {
        Err(e) => Err(e),
        Ok(t) => {
            let name = to_snake_case(pname.as_str());
            let nick = to_class_case(block[1].as_str());
            let p = Parameter {
                order,
                name,
                vips_name: pname,
                nick,
                description: block[2].clone(),
                param_type: t,
            };
            Ok((is_output, p))
        }
    }
}

/// One synthesized coefficient of the four-coefficient substitution: an
/// unrestricted floating-point parameter defaulting to zero.
pub open spec fn affine_coeff(name: Seq<char>, ord: u8) -> ParameterS {
    ParameterS {
        order: ord,
        name,
        vips_name: name,
        nick: "Transformation Matrix"@,
        description: "Transformation Matrix coefficient"@,
        param_type: ParamTypeS::Double { min: "-inf"@, max: "inf"@, default: "0"@ },
    }
}

proof fn lemma_affine_coeff_wf()
    ensures
        is_float_text("-inf"@),
        is_float_text("inf"@),
        is_float_text("0"@),
{
    reveal_strlit("-inf");
    reveal_strlit("inf");
    reveal_strlit("0");
    assert("inf"@.len() == 3);
    assert(crate::text::signed_body("inf"@) == "inf"@);
    assert(crate::text::is_inf_word("inf"@));
    assert("-inf"@.len() == 4);
    assert("-inf"@[0] == '-');
    assert(crate::text::signed_body("-inf"@) =~= "inf"@);
    assert("0"@.len() == 1);
    assert("0"@[0] == '0');
    assert(crate::text::signed_body("0"@) == "0"@);
    assert(crate::text::float_accept("0"@, 1, crate::text::FloatScan::MantDigits));
    assert(crate::text::float_accept("0"@, 0, crate::text::FloatScan::MantStart));
}

/// The back-reference threaded into an image parameter that directly
/// follows a leading array-of-images parameter.
pub open spec fn prev_of(req: Seq<ParameterS>, order: nat) -> Option<Seq<char>> {
    if order == 1 && req.len() > 0 && (req[0].param_type is ArrayImage) {
        Some(req[0].name)
    } else {
        None
    }
}

/// Builds the required and output parameter lists from the required
/// section's blocks. `order` counts every accepted parameter, outputs
/// included. In the one native group whose required-parameter introspection
/// is known to be wrong, the block reaching order slot two is discarded
/// along with every later block of that group, and four unrestricted
/// coefficients stand in their place.
pub open spec fn build_req(
    blocks: Seq<Seq<Seq<char>>>,
    k: int,
    group: Seq<char>,
    order: nat,
    req: Seq<ParameterS>,
    out: Seq<ParameterS>,
    affine_done: bool,
) -> Result<(Seq<ParameterS>, Seq<ParameterS>), ParseError>
    decreases blocks.len() - k,
{
    if k < 0 || k >= blocks.len() {
        Ok((req, out))
    } else if group == "VipsAffine"@ && order > 1 {
        if affine_done {
            build_req(blocks, k + 1, group, order, req, out, true)
        } else if order + 3 > u8::MAX {
            Err(ParseError::TooManyParameters)
        } else {
            build_req(
                blocks,
                k + 1,
                group,
                order + 4,
                req + seq![
                    affine_coeff("a"@, order as u8),
                    affine_coeff("b"@, (order + 1) as u8),
                    affine_coeff("c"@, (order + 2) as u8),
                    affine_coeff("d"@, (order + 3) as u8),
                ],
                out,
                true,
            )
        }
    } else if order > u8::MAX {
        Err(ParseError::TooManyParameters)
    } else {
        match build_param(blocks[k], order as u8, prev_of(req, order)) {
            Err(e) => Err(e),
            Ok((is_out, p)) => if is_out {
                build_req(blocks, k + 1, group, order + 1, req, out.push(p), affine_done)
            } else {
                build_req(blocks, k + 1, group, order + 1, req.push(p), out, affine_done)
            },
        }
    }
}

/// Builds the optional parameter list; order is not used for by-name
/// parameters.
pub open spec fn build_opt(blocks: Seq<Seq<Seq<char>>>, k: int) -> Result<
    Seq<ParameterS>,
    ParseError,
>
    decreases blocks.len() - k,
{
    if k < 0 || k >= blocks.len() {
        Ok(Seq::empty())
    } else {
        match build_param(blocks[k], 0, None) {
            Err(e) => Err(e),
            Ok((is_out, p)) => match build_opt(blocks, k + 1) {
                Err(e) => Err(e),
                Ok(rest) => Ok(seq![p] + rest),
            },
        }
    }
}

/// Builds one operation from its chunked lines. The header splits into the
/// native name and group; the target name is the snake-cased native name,
/// except one rename away from a reserved word.
pub open spec fn build_op(raw: RawOpS) -> Result<OperationS, ParseError> {
    let hs = split_seq(raw.header, ':');
    if hs.len() < 2 {
        Err(ParseError::MalformedHeader)
    } else {
        match build_req(raw.req_blocks, 0, hs[1], 0, Seq::empty(), Seq::empty(), false) {
            Err(e) => Err(e),
            Ok((req, out)) => match build_opt(raw.opt_blocks, 0) {
                Err(e) => Err(e),
                Ok(opt) => Ok(
                    OperationS {
                        name: if hs[0] == "match"@ {
                            "matches"@
                        } else {
                            snake_of(hs[0])
                        },
                        vips_name: hs[0],
                        vips_operation: hs[1],
                        description: raw.description,
                        required: req,
                        optional: opt,
                        output: out,
                    },
                ),
            },
        }
    }
}

/// Builds every operation of the chunked dump, in order.
pub open spec fn build_ops(raws: Seq<RawOpS>, k: int) -> Result<Seq<OperationS>, ParseError>
    decreases raws.len() - k,
{
    if k < 0 || k >= raws.len() {
        Ok(Seq::empty())
    } else {
        match build_op(raws[k]) {
            Err(e) => Err(e),
            Ok(op) => match build_ops(raws, k + 1) {
                Err(e) => Err(e),
                Ok(rest) => Ok(seq![op] + rest),
            },
        }
    }
}

/// The dump's lines, blank ones dropped.
pub open spec fn nonblank_lines(text: Seq<char>) -> Seq<Seq<char>> {
    split_seq(text, '\n').filter(|l: Seq<char>| l.len() > 0)
}

/// The parse of a whole dump: its operations in catalog order, or the first
/// fatal error.
pub open spec fn parse_dump_text(text: Seq<char>) -> Result<Seq<OperationS>, ParseError> {
    match chunk_dump(nonblank_lines(text), 0) {
        Err(e) => Err(e),
        Ok(raws) => build_ops(raws, 0),
    }
}

fn build_req_exec(blocks: &Vec<Vec<String>>, group: &str) -> (r: Result<
    (Vec<Parameter>, Vec<Parameter>),
    ParseError,
>)
    ensures
        match r {
            Ok((req, out)) => build_req(
                block_views(blocks@),
                0,
                group@,
                0,
                Seq::empty(),
                Seq::empty(),
                false,
            ) == Ok::<_, ParseError>((param_views(req@), param_views(out@))) && (forall|i: int|
                0 <= i < req@.len() ==> crate::model::wf_param(#[trigger] req@[i]@)) && (forall|
                i: int,
            |
                0 <= i < out@.len() ==> crate::model::wf_param(#[trigger] out@[i]@)),
            Err(e) => build_req(
                block_views(blocks@),
                0,
                group@,
                0,
                Seq::empty(),
                Seq::empty(),
                false,
            ) == Err::<(Seq<ParameterS>, Seq<ParameterS>), _>(e),
        },
{
    let ghost bv = block_views(blocks@);
    let mut req: Vec<Parameter> = Vec::new();
    let mut out: Vec<Parameter> = Vec::new();
    let mut k: usize = 0;
    let mut order: usize = 0;
    let mut affine_done = false;
    proof {
        assert(param_views(req@) =~= Seq::<ParameterS>::empty());
        assert(param_views(out@) =~= Seq::<ParameterS>::empty());
    }
    while k < blocks.len()
        invariant
            0 <= k <= blocks@.len(),
            order <= 256,
            bv == block_views(blocks@),
            bv.len() == blocks@.len(),
            build_req(bv, 0, group@, 0, Seq::empty(), Seq::empty(), false) == build_req(
                bv,
                k as int,
                group@,
                order as nat,
                param_views(req@),
                param_views(out@),
                affine_done,
            ),
            forall|i: int| 0 <= i < req@.len() ==> crate::model::wf_param(#[trigger] req@[i]@),
            forall|i: int| 0 <= i < out@.len() ==> crate::model::wf_param(#[trigger] out@[i]@),
        decreases blocks@.len() - k,
    {
        proof {
            assert(bv[k as int] == views_of(blocks@[k as int]@));
        }
        if str_eq(group, "VipsAffine") && order > 1 {
            if affine_done {
                k = k + 1;
            } else if order + 3 > 255 {
                return Err(ParseError::TooManyParameters);
            } else {
                let ghost req0 = param_views(req@);
                proof {
                    lemma_affine_coeff_wf();
                }
                let pa = Parameter {
                    order: order as u8,
                    name: "a".to_owned(),
                    vips_name: "a".to_owned(),
                    nick: "Transformation Matrix".to_owned(),
                    description: "Transformation Matrix coefficient".to_owned(),
                    param_type: ParamType::Double {
                        min: "-inf".to_owned(),
                        max: "inf".to_owned(),
                        default: "0".to_owned(),
                    },
                };
                let pb = Parameter {
                    order: (order + 1) as u8,
                    name: "b".to_owned(),
                    vips_name: "b".to_owned(),
                    nick: "Transformation Matrix".to_owned(),
                    description: "Transformation Matrix coefficient".to_owned(),
                    param_type: ParamType::Double {
                        min: "-inf".to_owned(),
                        max: "inf".to_owned(),
                        default: "0".to_owned(),
                    },
                };
                let pc = Parameter {
                    order: (order + 2) as u8,
                    name: "c".to_owned(),
                    vips_name: "c".to_owned(),
                    nick: "Transformation Matrix".to_owned(),
                    description: "Transformation Matrix coefficient".to_owned(),
                    param_type: ParamType::Double {
                        min: "-inf".to_owned(),
                        max: "inf".to_owned(),
                        default: "0".to_owned(),
                    },
                };
                let pd = Parameter {
                    order: (order + 3) as u8,
                    name: "d".to_owned(),
                    vips_name: "d".to_owned(),
                    nick: "Transformation Matrix".to_owned(),
                    description: "Transformation Matrix coefficient".to_owned(),
                    param_type: ParamType::Double {
                        min: "-inf".to_owned(),
                        max: "inf".to_owned(),
                        default: "0".to_owned(),
                    },
                };
                proof {
                    assert(pa@ == affine_coeff("a"@, order as u8));
                    assert(pb@ == affine_coeff("b"@, (order + 1) as u8));
                    assert(pc@ == affine_coeff("c"@, (order + 2) as u8));
                    assert(pd@ == affine_coeff("d"@, (order + 3) as u8));
                }
                req.push(pa);
                req.push(pb);
                req.push(pc);
                req.push(pd);
                proof {
                    assert(param_views(req@) =~= req0 + seq![
                        affine_coeff("a"@, order as u8),
                        affine_coeff("b"@, (order + 1) as u8),
                        affine_coeff("c"@, (order + 2) as u8),
                        affine_coeff("d"@, (order + 3) as u8),
                    ]);
                }
                order = order + 4;
                affine_done = true;
                k = k + 1;
            }
        } else if order > 255 {
            return Err(ParseError::TooManyParameters);
        } else {
            let prev: Option<String> = if order == 1 && req.len() > 0 {
                match &req[0].param_type {
                    ParamType::ArrayImage => Option::Some(req[0].name.clone()),
                    _ => Option::None,
                }
            } else {
                Option::None
            };
            proof {
                if order == 1 && req@.len() > 0 {
                    assert(param_views(req@)[0] == req@[0]@);
                }
                assert(option_view(prev) == prev_of(param_views(req@), order as nat));
            }
            match build_param_exec(&blocks[k], order as u8, prev) {
                Err(e) => {
                    return Err(e);
                }
                Ok((is_out, p)) => {
                    if is_out {
                        let ghost out0 = param_views(out@);
                        let ghost pv = p@;
                        out.push(p);
                        proof {
                            assert(param_views(out@) =~= out0.push(pv));
                        }
                    } else {
                        let ghost req0 = param_views(req@);
                        let ghost pv = p@;
                        req.push(p);
                        proof {
                            assert(param_views(req@) =~= req0.push(pv));
                        }
                    }
                    order = order + 1;
                    k = k + 1;
                }
            }
        }
    }
    Ok((req, out))
}

fn build_opt_exec(blocks: &Vec<Vec<String>>, k: usize) -> (r: Result<Vec<Parameter>, ParseError>)
    requires
        k <= blocks@.len(),
    ensures
        match r {
            Ok(opt) => build_opt(block_views(blocks@), k as int) == Ok::<_, ParseError>(
                param_views(opt@),
            ) && (forall|i: int|
                0 <= i < opt@.len() ==> crate::model::wf_param(#[trigger] opt@[i]@)),
            Err(e) => build_opt(block_views(blocks@), k as int) == Err::<Seq<ParameterS>, _>(e),
        },
    decreases blocks@.len() - k,
{
    let ghost bv = block_views(blocks@);
    if k >= blocks.len() {
        let empty: Vec<Parameter> = Vec::new();
        proof {
            assert(param_views(empty@) =~= Seq::<ParameterS>::empty());
        }
        return Ok(empty);
    }
    proof {
        assert(bv[k as int] == views_of(blocks@[k as int]@));
    }
    match build_param_exec(&blocks[k], 0, Option::None) {
        Err(e) => Err(e),
        Ok((_, p)) => match build_opt_exec(blocks, k + 1) {
            Err(e) => Err(e),
            Ok(mut rest) => {
                let ghost rest0 = rest@;
                rest.insert(0, p);
                proof {
                    assert(rest@ =~= seq![rest@[0]] + rest0);
                    assert(param_views(rest@) =~= seq![rest@[0]@] + param_views(rest0));
                }
                Ok(rest)
            }
        },
    }
}

fn build_op_exec(raw: &RawOp) -> (r: Result<Operation, ParseError>)
    ensures
        match r {
            Ok(op) => build_op(raw@) == Ok::<_, ParseError>(op@) && crate::model::wf_operation(op@),
            Err(e) => build_op(raw@) == Err::<OperationS, _>(e),
        },
{
    let hs = split_str(raw.header.as_str(), ':');
    let ghost hsv = split_seq(raw.header@, ':');
    if hs.len() < 2 {
        return Err(ParseError::MalformedHeader);
    }
    proof {
        assert(hsv[0] == hs@[0]@);
        assert(hsv[1] == hs@[1]@);
    }
    match build_req_exec(&raw.req_blocks, hs[1].as_str()) {
        Err(e) => Err(e),
        Ok((required, output)) => match build_opt_exec(&raw.opt_blocks, 0) {
            Err(e) => Err(e),
            Ok(optional) => {
                let name: String = if str_eq(hs[0].as_str(), "match") {
                    "matches".to_owned()
                } else {
                    to_snake_case(hs[0].as_str())
                };
                let op = Operation {
                    name,
                    vips_name: hs[0].clone(),
                    vips_operation: hs[1].clone(),
                    description: raw.description.clone(),
                    required,
                    optional,
                    output,
                };
                proof {
                    assert(op@.required == param_views(op.required@));
                    assert(op@.optional == param_views(op.optional@));
                    assert(op@.output == param_views(op.output@));
                }
                Ok(op)
            }
        },
    }
}

fn build_ops_exec(raws: &Vec<RawOp>, k: usize) -> (r: Result<Vec<Operation>, ParseError>)
    requires
        k <= raws@.len(),
    ensures
        match r {
            Ok(ops) => build_ops(raws@.map_values(|o: RawOp| o@), k as int) == Ok::<_, ParseError>(
                op_views(ops@),
            ) && (forall|i: int|
                0 <= i < ops@.len() ==> crate::model::wf_operation(#[trigger] ops@[i]@)),
            Err(e) => build_ops(raws@.map_values(|o: RawOp| o@), k as int) == Err::<
                Seq<OperationS>,
                _,
            >(e),
        },
    decreases raws@.len() - k,
{
    let ghost rv = raws@.map_values(|o: RawOp| o@);
    if k >= raws.len() {
        let empty: Vec<Operation> = Vec::new();
        proof {
            assert(op_views(empty@) =~= Seq::<OperationS>::empty());
        }
        return Ok(empty);
    }
    proof {
        assert(rv[k as int] == raws@[k as int]@);
    }
    match build_op_exec(&raws[k]) {
        Err(e) => Err(e),
        Ok(op) => match build_ops_exec(raws, k + 1) {
            Err(e) => Err(e),
            Ok(mut rest) => {
                let ghost rest0 = rest@;
                rest.insert(0, op);
                proof {
                    assert(rest@ =~= seq![rest@[0]] + rest0);
                    assert(op_views(rest@) =~= seq![rest@[0]@] + op_views(rest0));
                }
                Ok(rest)
            }
        },
    }
}

/// Parses the full introspection dump. On success the operations come back
/// in catalog order, every one well formed; on any grammar deviation or
/// inconsistency the first fatal error comes back instead, and no partial
/// output is produced.
pub fn parse_dump(text: &str) -> (r: Result<Vec<Operation>, ParseError>)
    ensures
        match r {
            Ok(ops) => parse_dump_text(text@) == Ok::<_, ParseError>(op_views(ops@)) && (forall|
                i: int,
            |
                0 <= i < ops@.len() ==> crate::model::wf_operation(#[trigger] ops@[i]@)),
            Err(e) => parse_dump_text(text@) == Err::<Seq<OperationS>, _>(e),
        },
{
    let parts = split_str(text, '\n');
    let ghost pv = views_of(parts@);
    let ghost pred = |l: Seq<char>| l.len() > 0;
    let mut kept: Vec<String> = Vec::new();
    let mut i: usize = 0;
    proof {
        assert(pv.take(0).filter(pred) =~= Seq::<Seq<char>>::empty());
        assert(views_of(kept@) =~= Seq::<Seq<char>>::empty());
    }
    while i < parts.len()
        invariant
            0 <= i <= parts@.len(),
            pv == views_of(parts@),
            pv.len() == parts@.len(),
            pred == (|l: Seq<char>| l.len() > 0),
            views_of(kept@) == pv.take(i as int).filter(pred),
        decreases parts@.len() - i,
    {
        proof {
            reveal(Seq::filter);
            assert(pv[i as int] == parts@[i as int]@);
            assert(pv.take(i as int + 1).drop_last() =~= pv.take(i as int));
            assert(pv.take(i as int + 1).last() == pv[i as int]);
        }
        if !parts[i].as_str().is_empty() {
            let ghost kept0 = views_of(kept@);
            kept.push(parts[i].clone());
            proof {
                assert(views_of(kept@) =~= kept0.push(pv[i as int]));
                assert(pv.take(i as int + 1).filter(pred) =~= kept0.push(pv[i as int]));
            }
        } else {
            proof {
                assert(pv.take(i as int + 1).filter(pred) =~= pv.take(i as int).filter(pred));
            }
        }
        i = i + 1;
    }
    proof {
        assert(pv.take(pv.len() as int) =~= pv);
        assert(views_of(kept@) == nonblank_lines(text@));
    }
    match chunk_dump_exec(&kept, 0) {
        Err(e) => Err(e),
        Ok(raws) => build_ops_exec(&raws, 0),
    }
}

fn scan_required_exec(lines: &Vec<String>, i: usize) -> (r: Result<
    (Vec<Vec<String>>, usize),
    ParseError,
>)
    requires
        i <= lines@.len(),
    ensures
        match r {
            Ok((bs, k)) => scan_required(views_of(lines@), i as int) == Ok::<_, ParseError>(
                (block_views(bs@), k as int),
            ) && k <= lines@.len(),
            Err(e) => scan_required(views_of(lines@), i as int) == Err::<
                (Seq<Seq<Seq<char>>>, int),
                _,
            >(e),
        },
    decreases lines@.len() - i,
{
    let ghost lv = views_of(lines@);
    proof {
        assert(lv.len() == lines@.len());
        if i < lines@.len() {
            assert(lv[i as int] == lines@[i as int]@);
        }
    }
    if i >= lines.len() {
        return Err(ParseError::MissingOptional);
    }
    if str_eq(lines[i].as_str(), "OPTIONAL:") {
        let empty: Vec<Vec<String>> = Vec::new();
        proof {
            assert(block_views(empty@) =~= Seq::<Seq<Seq<char>>>::empty());
        }
        return Ok((empty, i + 1));
    }
    if str_eq(lines[i].as_str(), "OPERATION:") {
        return Err(ParseError::MissingOptional);
    }
    match scan_block_exec(lines, i, "OPTIONAL:", "OPERATION:") {
        Err(e) => Err(e),
        Ok((b, j)) => {
            proof {
                lemma_scan_block_advances(lv, i as int, "OPTIONAL:"@, "OPERATION:"@);
            }
            match scan_required_exec(lines, j) {
                Err(e) => Err(e),
                Ok((mut bs, k)) => {
                    let ghost bs0 = bs@;
                    let ghost bv = views_of(b@);
                    bs.insert(0, b);
                    proof {
                        assert(bs@ =~= seq![bs@[0]] + bs0);
                        assert(block_views(bs@) =~= seq![bv] + block_views(bs0));
                    }
                    Ok((bs, k))
                }
            }
        }
    }
}

fn scan_optional_exec(lines: &Vec<String>, i: usize) -> (r: Result<
    (Vec<Vec<String>>, usize),
    ParseError,
>)
    requires
        i <= lines@.len(),
    ensures
        match r {
            Ok((bs, k)) => scan_optional(views_of(lines@), i as int) == Ok::<_, ParseError>(
                (block_views(bs@), k as int),
            ) && k <= lines@.len(),
            Err(e) => scan_optional(views_of(lines@), i as int) == Err::<
                (Seq<Seq<Seq<char>>>, int),
                _,
            >(e),
        },
    decreases lines@.len() - i,
{
    let ghost lv = views_of(lines@);
    proof {
        assert(lv.len() == lines@.len());
        if i < lines@.len() {
            assert(lv[i as int] == lines@[i as int]@);
        }
    }
    if i >= lines.len() || str_eq(lines[i].as_str(), "OPERATION:") {
        let empty: Vec<Vec<String>> = Vec::new();
        proof {
            assert(block_views(empty@) =~= Seq::<Seq<Seq<char>>>::empty());
        }
        return Ok((empty, i));
    }
    match scan_block_exec(lines, i, "OPERATION:", "OPERATION:") {
        Err(e) => Err(e),
        Ok((b, j)) => {
            proof {
                lemma_scan_block_advances(lv, i as int, "OPERATION:"@, "OPERATION:"@);
            }
            match scan_optional_exec(lines, j) {
                Err(e) => Err(e),
                Ok((mut bs, k)) => {
                    let ghost bs0 = bs@;
                    let ghost bv = views_of(b@);
                    bs.insert(0, b);
                    proof {
                        assert(bs@ =~= seq![bs@[0]] + bs0);
                        assert(block_views(bs@) =~= seq![bv] + block_views(bs0));
                    }
                    Ok((bs, k))
                }
            }
        }
    }
}

fn scan_header_exec(lines: &Vec<String>, i: usize) -> (r: Result<(Vec<String>, usize), ParseError>)
    requires
        i <= lines@.len(),
    ensures
        match r {
            Ok((h, j)) => scan_header(views_of(lines@), i as int) == Ok::<_, ParseError>(
                (views_of(h@), j as int),
            ) && j <= lines@.len(),
            Err(e) => scan_header(views_of(lines@), i as int) == Err::<(Seq<Seq<char>>, int), _>(e),
        },
    decreases lines@.len() - i,
{
    let ghost lv = views_of(lines@);
    proof {
        assert(lv.len() == lines@.len());
        if i < lines@.len() {
            assert(lv[i as int] == lines@[i as int]@);
        }
    }
    if i >= lines.len() {
        return Err(ParseError::MissingRequired);
    }
    if str_eq(lines[i].as_str(), "REQUIRED:") {
        let empty: Vec<String> = Vec::new();
        proof {
            assert(views_of(empty@) =~= Seq::<Seq<char>>::empty());
        }
        return Ok((empty, i + 1));
    }
    if str_eq(lines[i].as_str(), "OPERATION:") {
        return Err(ParseError::MissingRequired);
    }
    match scan_header_exec(lines, i + 1) {
        Err(e) => Err(e),
        Ok((mut h, j)) => {
            let ghost h0 = h@;
            h.insert(0, lines[i].clone());
            proof {
                assert(h@ =~= seq![lines@[i as int]] + h0);
                assert(views_of(h@) =~= seq![lv[i as int]] + views_of(h0));
            }
            Ok((h, j))
        }
    }
}

fn chunk_op_exec(lines: &Vec<String>, i: usize) -> (r: Result<(RawOp, usize), ParseError>)
    requires
        i <= lines@.len(),
    ensures
        match r {
            Ok((op, m)) => chunk_op(views_of(lines@), i as int) == Ok::<_, ParseError>(
                (op@, m as int),
            ) && m <= lines@.len(),
            Err(e) => chunk_op(views_of(lines@), i as int) == Err::<(RawOpS, int), _>(e),
        },
{
    let ghost lv = views_of(lines@);
    match scan_header_exec(lines, i) {
        Err(e) => Err(e),
        Ok((hdr, j)) => {
            if hdr.len() < 2 {
                return Err(ParseError::MalformedHeader);
            }
            proof {
                assert(views_of(hdr@)[0] == hdr@[0]@);
                assert(views_of(hdr@)[1] == hdr@[1]@);
            }
            match scan_required_exec(lines, j) {
                Err(e) => Err(e),
                Ok((req, k)) => match scan_optional_exec(lines, k) {
                    Err(e) => Err(e),
                    Ok((opt, m)) => {
                        let raw = RawOp {
                            header: hdr[0].clone(),
                            description: hdr[1].clone(),
                            req_blocks: req,
                            opt_blocks: opt,
                        };
                        Ok((raw, m))
                    }
                },
            }
        }
    }
}

fn chunk_dump_exec(lines: &Vec<String>, i: usize) -> (r: Result<Vec<RawOp>, ParseError>)
    requires
        i <= lines@.len(),
    ensures
        match r {
            Ok(ops) => chunk_dump(views_of(lines@), i as int) == Ok::<_, ParseError>(
                ops@.map_values(|o: RawOp| o@),
            ),
            Err(e) => chunk_dump(views_of(lines@), i as int) == Err::<Seq<RawOpS>, _>(e),
        },
    decreases lines@.len() - i,
{
    let ghost lv = views_of(lines@);
    proof {
        assert(lv.len() == lines@.len());
        if i < lines@.len() {
            assert(lv[i as int] == lines@[i as int]@);
        }
    }
    if i >= lines.len() {
        let empty: Vec<RawOp> = Vec::new();
        proof {
            assert(empty@.map_values(|o: RawOp| o@) =~= Seq::<RawOpS>::empty());
        }
        return Ok(empty);
    }
    if !str_eq(lines[i].as_str(), "OPERATION:") {
        return Err(ParseError::StrayLine);
    }
    match chunk_op_exec(lines, i + 1) {
        Err(e) => Err(e),
        Ok((op, j)) => {
            proof {
                lemma_chunk_op_advances(lv, i as int + 1);
            }
            match chunk_dump_exec(lines, j) {
                Err(e) => Err(e),
                Ok(mut ops) => {
                    let ghost ops0 = ops@;
                    ops.insert(0, op);
                    proof {
                        assert(ops@ =~= seq![ops@[0]] + ops0);
                        assert(ops@.map_values(|o: RawOp| o@) =~= seq![ops@[0]@]
                            + ops0.map_values(|o: RawOp| o@));
                    }
                    Ok(ops)
                }
            }
        }
    }
}

} // verus!
