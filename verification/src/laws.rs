//! The laws the generator obeys, stated over the spec-level parsing and
//! emission functions and proved once for all inputs.

use vstd::prelude::*;
use crate::emit::{
    blocklisted, body_text, error_display_text, error_module_text, error_variants_text, kept_ops,
    main_fn_text, methods_text, opts_fn_text, ops_module_text, sorted_enums_text,
};
use crate::model::{
    default_entry, default_matches, EnumerationS, OperationS, ParamTypeS, ParameterS,
};
use crate::names::class_of;
use crate::parse::{
    affine_coeff, build_op, build_opt, build_ops, build_param, build_req, chunk_dump, chunk_op,
    nonblank_lines, parse_dump_text, scan_block, scan_header, scan_optional, scan_required, RawOpS,
};
use crate::typemodel::{default_text, enum_name_of};

verus! {

/// How many lines from position `i` on begin an operation.
pub open spec fn op_lines_from(lines: Seq<Seq<char>>, i: int) -> nat
    decreases lines.len() - i,
{
    if i < 0 || i >= lines.len() {
        0
    } else {
        (if lines[i] == "OPERATION:"@ {
            1nat
        } else {
            0nat
        }) + op_lines_from(lines, i + 1)
    }
}

proof fn lemma_keyword_lines_differ()
    ensures
        "PARAM:"@ != "OPERATION:"@,
        "OPTIONAL:"@ != "OPERATION:"@,
        "REQUIRED:"@ != "OPERATION:"@,
{
    reveal_strlit("PARAM:");
    reveal_strlit("OPERATION:");
    reveal_strlit("OPTIONAL:");
    reveal_strlit("REQUIRED:");
    assert("PARAM:"@.len() == 6);
    assert("OPERATION:"@.len() == 10);
    assert("OPTIONAL:"@.len() == 9);
    assert("REQUIRED:"@.len() == 9);
    assert("OPTIONAL:"@[0] == 'O');
    assert("REQUIRED:"@[0] == 'R');
    assert("OPERATION:"@[1] == 'P');
    assert("OPTIONAL:"@[1] == 'P');
    assert("REQUIRED:"@.len() != "OPERATION:"@.len());
    assert("OPTIONAL:"@[2] == 'T');
    assert("OPERATION:"@[2] == 'E');
}

proof fn lemma_scan_block_ops(lines: Seq<Seq<char>>, i: int, stop_a: Seq<char>)
    ensures
        scan_block(lines, i, stop_a, "OPERATION:"@) matches Ok((b, j)) ==> op_lines_from(lines, i)
            == op_lines_from(lines, j),
    decreases lines.len() - i,
{
    lemma_keyword_lines_differ();
    if 0 <= i < lines.len() {
        lemma_scan_block_ops(lines, i + 1, stop_a);
    }
}

proof fn lemma_scan_required_ops(lines: Seq<Seq<char>>, i: int)
    ensures
        scan_required(lines, i) matches Ok((bs, k)) ==> op_lines_from(lines, i) == op_lines_from(
            lines,
            k,
        ),
    decreases lines.len() - i,
{
    lemma_keyword_lines_differ();
    if 0 <= i < lines.len() {
        lemma_scan_block_ops(lines, i, "OPTIONAL:"@);
        match scan_block(lines, i, "OPTIONAL:"@, "OPERATION:"@) {
            Ok((b, j)) => {
                if i < j <= lines.len() {
                    lemma_scan_required_ops(lines, j);
                }
            }
            Err(_) => (),
        }
    }
}

proof fn lemma_scan_optional_ops(lines: Seq<Seq<char>>, i: int)
    requires
        0 <= i,
    ensures
        scan_optional(lines, i) matches Ok((bs, k)) ==> op_lines_from(lines, i) == op_lines_from(
            lines,
            k,
        ),
    decreases lines.len() - i,
{
    lemma_keyword_lines_differ();
    if 0 <= i < lines.len() {
        lemma_scan_block_ops(lines, i, "OPERATION:"@);
        match scan_block(lines, i, "OPERATION:"@, "OPERATION:"@) {
            Ok((b, j)) => {
                if i < j <= lines.len() {
                    lemma_scan_optional_ops(lines, j);
                }
            }
            Err(_) => (),
        }
    }
}

proof fn lemma_scan_header_ops(lines: Seq<Seq<char>>, i: int)
    ensures
        scan_header(lines, i) matches Ok((h, j)) ==> op_lines_from(lines, i) == op_lines_from(
            lines,
            j,
        ),
    decreases lines.len() - i,
{
    lemma_keyword_lines_differ();
    if 0 <= i < lines.len() {
        lemma_scan_header_ops(lines, i + 1);
    }
}

proof fn lemma_chunk_op_ops(lines: Seq<Seq<char>>, i: int)
    requires
        0 <= i,
    ensures
        chunk_op(lines, i) matches Ok((op, m)) ==> op_lines_from(lines, i) == op_lines_from(
            lines,
            m,
        ),
{
    lemma_scan_header_ops(lines, i);
    crate::parse::lemma_scan_header_advances(lines, i);
    match scan_header(lines, i) {
        Ok((hdr, j)) => {
            lemma_scan_required_ops(lines, j);
            crate::parse::lemma_scan_required_advances(lines, j);
            match scan_required(lines, j) {
                Ok((req, k)) => lemma_scan_optional_ops(lines, k),
                Err(_) => (),
            }
        }
        Err(_) => (),
    }
}

proof fn lemma_chunk_dump_count(lines: Seq<Seq<char>>, i: int)
    ensures
        chunk_dump(lines, i) matches Ok(raws) ==> raws.len() == op_lines_from(lines, i),
    decreases lines.len() - i,
{
    if 0 <= i < lines.len() && lines[i] == "OPERATION:"@ {
        lemma_chunk_op_ops(lines, i + 1);
        match chunk_op(lines, i + 1) {
            Ok((op, j)) => {
                if i < j <= lines.len() {
                    lemma_chunk_dump_count(lines, j);
                }
            }
            Err(_) => (),
        }
    }
}

proof fn lemma_build_ops_count(raws: Seq<RawOpS>, k: int)
    ensures
        build_ops(raws, k) matches Ok(ops) ==> k >= 0 ==> ops.len() == raws.len() - k || ops.len()
            == 0 && k >= raws.len(),
    decreases raws.len() - k,
{
    if 0 <= k < raws.len() {
        lemma_build_ops_count(raws, k + 1);
    }
}

/// Parsing is total over well-formed dumps: when the parse succeeds, every
/// `OPERATION:` line of the dump yields exactly one operation, so the
/// operation count equals the count of those lines.
pub proof fn lemma_parse_yields_one_op_per_block(text: Seq<char>)
    ensures
        parse_dump_text(text) matches Ok(ops) ==> ops.len() == op_lines_from(
            nonblank_lines(text),
            0,
        ),
{
    let lines = nonblank_lines(text);
    lemma_chunk_dump_count(lines, 0);
    match chunk_dump(lines, 0) {
        Ok(raws) => {
            lemma_build_ops_count(raws, 0);
        }
        Err(_) => (),
    }
}

proof fn lemma_build_req_count(
    blocks: Seq<Seq<Seq<char>>>,
    k: int,
    group: Seq<char>,
    order: nat,
    req: Seq<ParameterS>,
    out: Seq<ParameterS>,
    affine_done: bool,
)
    requires
        group != "VipsAffine"@,
        0 <= k <= blocks.len(),
    ensures
        build_req(blocks, k, group, order, req, out, affine_done) matches Ok((r, o)) ==> r.len()
            + o.len() == req.len() + out.len() + (blocks.len() - k),
    decreases blocks.len() - k,
{
    if k < blocks.len() && order <= u8::MAX {
        match build_param(blocks[k], order as u8, crate::parse::prev_of(req, order)) {
            Ok((is_out, p)) => {
                if is_out {
                    lemma_build_req_count(
                        blocks,
                        k + 1,
                        group,
                        order + 1,
                        req,
                        out.push(p),
                        affine_done,
                    );
                } else {
                    lemma_build_req_count(
                        blocks,
                        k + 1,
                        group,
                        order + 1,
                        req.push(p),
                        out,
                        affine_done,
                    );
                }
            }
            Err(_) => (),
        }
    }
}

proof fn lemma_build_opt_count(blocks: Seq<Seq<Seq<char>>>, k: int)
    requires
        0 <= k <= blocks.len(),
    ensures
        build_opt(blocks, k) matches Ok(ps) ==> ps.len() == blocks.len() - k,
    decreases blocks.len() - k,
{
    if k < blocks.len() {
        match build_param(blocks[k], 0, None) {
            Ok(_) => lemma_build_opt_count(blocks, k + 1),
            Err(_) => (),
        }
    }
}

/// Outside the one native group whose introspection is substituted, the
/// parsed parameter counts account for every block: required plus output
/// parameters equal the required-section blocks, and optional parameters
/// equal the optional-section blocks. (The substituted group trades its
/// discarded blocks for four synthesized parameters, so it is the one
/// exception.)
pub proof fn lemma_param_counts_match_blocks(raw: RawOpS)
    requires
        crate::text::split_seq(raw.header, ':').len() >= 2,
        crate::text::split_seq(raw.header, ':')[1] != "VipsAffine"@,
    ensures
        build_op(raw) matches Ok(op) ==> op.required.len() + op.output.len()
            == raw.req_blocks.len() && op.optional.len() == raw.opt_blocks.len(),
{
    let hs = crate::text::split_seq(raw.header, ':');
    lemma_build_req_count(raw.req_blocks, 0, hs[1], 0, Seq::empty(), Seq::empty(), false);
    lemma_build_opt_count(raw.opt_blocks, 0);
}

/// For an operation with no optional parameters exactly one wrapper
/// function is emitted; with at least one, the options record and a second
/// wrapper follow it, and the record declares one field and one default per
/// optional parameter.
pub proof fn lemma_emission_round_trip(op: OperationS)
    ensures
        op.optional.len() == 0 ==> body_text(op) == main_fn_text(op),
        op.optional.len() > 0 ==> body_text(op) == main_fn_text(op) + opts_fn_text(op),
        op.optional.map_values(
            |p: ParameterS| crate::emit::doc_struct_text(p) + "\npub "@
                + crate::emit::struct_declaration_text(p),
        ).len() == op.optional.len(),
        op.optional.map_values(|p: ParameterS| crate::emit::param_default_text(p)).len()
            == op.optional.len(),
{
    reveal(crate::emit::body_text);
}

/// For a well-formed enumerated kind, exactly one entry's value equals the
/// declared default; the default-value expression names that entry's
/// class-cased nickname, and no other entry's value equals the default.
pub proof fn lemma_enum_default_resolution(
    name: Seq<char>,
    entries: Seq<EnumerationS>,
    default: i32,
)
    requires
        default_matches(entries, default).len() == 1,
    ensures
        default_entry(entries, default).value == default,
        entries.contains(default_entry(entries, default)),
        default_text(ParamTypeS::Enum { name, entries, default }) == enum_name_of(name) + "::"@
            + class_of(default_entry(entries, default).nick),
        forall|i: int|
            0 <= i < entries.len() && #[trigger] entries[i].value == default ==> entries[i]
                == default_entry(entries, default),
{
    let pred = |e: EnumerationS| e.value == default;
    let matched = entries.filter(pred);
    entries.lemma_filter_pred(pred, 0);
    assert(entries.contains(matched[0])) by {
        assert(matched.contains(matched[0]));
        entries.lemma_filter_contains_rev(pred, matched[0]);
    }
    assert forall|i: int|
        0 <= i < entries.len() && #[trigger] entries[i].value == default implies entries[i]
        == default_entry(entries, default) by {
        entries.lemma_filter_contains(pred, i);
        let j = choose|j: int| 0 <= j < matched.len() && matched[j] == entries[i];
        assert(matched[j] == matched[0]);
    }
}

/// Generation is deterministic: the emitted module texts are functions of
/// the parsed catalog alone, so byte-identical input text gives
/// byte-identical output artifacts, enumeration order included.
pub proof fn lemma_generation_deterministic(t1: Seq<char>, t2: Seq<char>)
    requires
        t1 == t2,
    ensures
        parse_dump_text(t1) == parse_dump_text(t2),
        parse_dump_text(t1) matches Ok(ops) ==> ops_module_text(ops) == ops_module_text(ops)
            && error_module_text(ops) == error_module_text(ops),
        sorted_enums_text(Seq::empty()) == sorted_enums_text(Seq::empty()),
{
}

/// The four-coefficient substitution: in the known-defective group, the
/// required block that reaches order slot two is discarded, whatever it
/// held, and four unrestricted coefficients named `a`, `b`, `c`, `d` with
/// the contiguous ascending orders two to five stand in its place.
pub proof fn lemma_four_coefficient_substitution(
    blocks: Seq<Seq<Seq<char>>>,
    k: int,
    req: Seq<ParameterS>,
    out: Seq<ParameterS>,
)
    requires
        0 <= k < blocks.len(),
    ensures
        build_req(blocks, k, "VipsAffine"@, 2, req, out, false) == build_req(
            blocks,
            k + 1,
            "VipsAffine"@,
            6,
            req + seq![
                affine_coeff("a"@, 2),
                affine_coeff("b"@, 3),
                affine_coeff("c"@, 4),
                affine_coeff("d"@, 5),
            ],
            out,
            true,
        ),
        affine_coeff("a"@, 2).order == 2 && affine_coeff("b"@, 3).order == 3 && affine_coeff(
            "c"@,
            4,
        ).order == 4 && affine_coeff("d"@, 5).order == 5,
        affine_coeff("a"@, 2).name == "a"@ && affine_coeff("b"@, 3).name == "b"@ && affine_coeff(
            "c"@,
            4,
        ).name == "c"@ && affine_coeff("d"@, 5).name == "d"@,
        affine_coeff("a"@, 2).param_type == (ParamTypeS::Double {
            min: "-inf"@,
            max: "inf"@,
            default: "0"@,
        }),
{
}

/// Blocklist exclusion: appending an operation whose native name is on the
/// blocklist changes neither the emitted functions, nor the error-taxonomy
/// variants, nor their display arms.
pub proof fn lemma_blocklist_excluded(ops: Seq<OperationS>, b: OperationS)
    requires
        blocklisted(b),
    ensures
        kept_ops(ops.push(b)) == kept_ops(ops),
        methods_text(ops.push(b)) == methods_text(ops),
        error_variants_text(ops.push(b)) == error_variants_text(ops),
        error_display_text(ops.push(b)) == error_display_text(ops),
{
    reveal(Seq::filter);
    let pred = |o: OperationS| !blocklisted(o);
    assert(ops.push(b).drop_last() =~= ops);
    assert(kept_ops(ops.push(b)) =~= kept_ops(ops));
}

} // verus!
