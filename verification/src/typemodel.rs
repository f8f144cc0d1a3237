//! The type model: for every parameter kind, the target-facing declaration
//! type, the native-call representation types, the default-value expression,
//! and the documentation fragment. Pure rules, one exec function per query,
//! each pinned to a spec-level text function.

use vstd::prelude::*;
use crate::model::{
    default_entry, default_matches, wf_param_type, Enumeration, EnumerationS, ParamType, ParamTypeS,
};
use crate::names::{class_of, to_class_case};
use crate::text::{
    dec_digits, dec_int, find_sub, find_substr, i32_to_string, join_with, lemma_join_push,
    occurs_at, str_eq, u64_to_string,
};

verus! {

/// The declared name of an enumerated type: the piece of the native type
/// name between the first occurrence of the native prefix and the next one,
/// or the whole name when the prefix is absent.
pub open spec fn enum_name_of(name: Seq<char>) -> Seq<char> {
    match find_sub(name, "Vips"@) {
        Option::None => name,
        Option::Some(k) => {
            let after = name.skip(k + "Vips"@.len() as int);
            match find_sub(after, "Vips"@) {
                Option::None => after,
                Option::Some(j) => after.take(j as int),
            }
        }
    }
}

/// Strips the native prefix from an enumerated type's name.
pub fn enum_name(name: &str) -> (r: String)
    ensures
        r@ == enum_name_of(name@),
{
    proof {
        reveal_strlit("Vips");
        assert("Vips"@.len() == 4);
    }
    let n = name.unicode_len();
    match find_substr(name, "Vips") {
        Option::None => name.to_owned(),
        Option::Some(k) => {
            proof {
                crate::text::lemma_find_sub(name@, "Vips"@);
            }
            let after = name.substring_char(k + 4, n);
            proof {
                assert(after@ =~= name@.skip(k + 4));
            }
            match find_substr(after, "Vips") {
                Option::None => after.to_owned(),
                Option::Some(j) => {
                    proof {
                        crate::text::lemma_find_sub(after@, "Vips"@);
                    }
                    let piece = after.substring_char(0, j);
                    proof {
                        assert(piece@ =~= after@.take(j as int));
                    }
                    piece.to_owned()
                }
            }
        }
    }
}

/// The target-facing declaration type of a kind, as used in record fields
/// and return positions.
pub open spec fn struct_type_text(t: ParamTypeS) -> Seq<char> {
    match t {
        ParamTypeS::Int { .. } => "i32"@,
        ParamTypeS::UInt { .. } => "u64"@,
        ParamTypeS::Double { .. } => "f64"@,
        ParamTypeS::Str => "String"@,
        ParamTypeS::Bool { .. } => "bool"@,
        ParamTypeS::ArrayInt => "Vec<i32>"@,
        ParamTypeS::ArrayDouble => "Vec<f64>"@,
        ParamTypeS::ArrayByte => "Vec<u8>"@,
        ParamTypeS::ArrayImage => "Vec<VipsImage>"@,
        ParamTypeS::VipsInterpolate => "VipsInterpolate"@,
        ParamTypeS::VipsImage { .. } => "VipsImage"@,
        ParamTypeS::VipsBlob => "Vec<u8>"@,
        ParamTypeS::Enum { name, .. } => enum_name_of(name),
    }
}

/// The target-facing parameter type of a kind, as used in function
/// signatures.
pub open spec fn param_type_text(t: ParamTypeS) -> Seq<char> {
    match t {
        ParamTypeS::Int { .. } => "i32"@,
        ParamTypeS::UInt { .. } => "u64"@,
        ParamTypeS::Double { .. } => "f64"@,
        ParamTypeS::Str => "&str"@,
        ParamTypeS::Bool { .. } => "bool"@,
        ParamTypeS::ArrayInt => "&mut [i32]"@,
        ParamTypeS::ArrayDouble => "&mut [f64]"@,
        ParamTypeS::ArrayByte => "&[u8]"@,
        ParamTypeS::ArrayImage => "&mut [VipsImage]"@,
        ParamTypeS::VipsInterpolate => "&VipsInterpolate"@,
        ParamTypeS::VipsImage { .. } => "&VipsImage"@,
        ParamTypeS::VipsBlob => "&[u8]"@,
        ParamTypeS::Enum { name, .. } => enum_name_of(name),
    }
}

/// The native-call representation type of a kind in the positional context,
/// or, when `is_optional` holds, in the by-name context, where arrays take a
/// boxed wrapper instead of a raw pointer.
pub open spec fn vips_in_type_text(t: ParamTypeS, is_optional: bool) -> Seq<char> {
    match t {
        ParamTypeS::Int { .. } => "i32"@,
        ParamTypeS::UInt { .. } => "u64"@,
        ParamTypeS::Double { .. } => "f64"@,
        ParamTypeS::Str => "CString"@,
        ParamTypeS::Bool { .. } => "i32"@,
        ParamTypeS::ArrayInt => if !is_optional {
            "*mut i32"@
        } else {
            "utils::VipsArrayIntWrapper"@
        },
        ParamTypeS::ArrayDouble => if !is_optional {
            "*mut f64"@
        } else {
            "utils::VipsArrayDoubleWrapper"@
        },
        ParamTypeS::ArrayByte => "*mut c_void"@,
        ParamTypeS::ArrayImage => if !is_optional {
            "*mut *mut bindings::VipsImage"@
        } else {
            "utils::VipsArrayImageWrapper"@
        },
        ParamTypeS::VipsInterpolate => "*mut bindings::VipsInterpolate"@,
        ParamTypeS::VipsImage { .. } => "*mut bindings::VipsImage"@,
        ParamTypeS::VipsBlob => "*mut bindings::VipsBlob"@,
        ParamTypeS::Enum { .. } => "i32"@,
    }
}

/// The native-call representation type of a kind in an output slot.
pub open spec fn vips_out_type_text(t: ParamTypeS) -> Seq<char> {
    match t {
        ParamTypeS::Int { .. } => "i32"@,
        ParamTypeS::UInt { .. } => "u64"@,
        ParamTypeS::Double { .. } => "f64"@,
        ParamTypeS::Str => "*mut c_char"@,
        ParamTypeS::Bool { .. } => "i32"@,
        ParamTypeS::ArrayInt => "*mut i32"@,
        ParamTypeS::ArrayDouble => "*mut f64"@,
        ParamTypeS::ArrayByte => "*mut c_void"@,
        ParamTypeS::ArrayImage => "*mut bindings::VipsImage"@,
        ParamTypeS::VipsInterpolate => "*mut bindings::VipsInterpolate"@,
        ParamTypeS::VipsImage { .. } => "*mut bindings::VipsImage"@,
        ParamTypeS::VipsBlob => "*mut bindings::VipsBlob"@,
        ParamTypeS::Enum { .. } => "*mut i32"@,
    }
}

/// The default-value expression of a kind. An enumeration resolves to the
/// nickname of the single entry whose value equals the declared default.
pub open spec fn default_text(t: ParamTypeS) -> Seq<char> {
    match t {
        ParamTypeS::Int { default, .. } => "i32::from("@ + dec_int(default as int) + ")"@,
        ParamTypeS::UInt { default, .. } => dec_digits(default as nat),
        ParamTypeS::Double { default, .. } => "f64::from("@ + default + ")"@,
        ParamTypeS::Str => "String::new()"@,
        ParamTypeS::Bool { default } => if default {
            "true"@
        } else {
            "false"@
        },
        ParamTypeS::ArrayInt => "Vec::new()"@,
        ParamTypeS::ArrayDouble => "Vec::new()"@,
        ParamTypeS::ArrayByte => "Vec::new()"@,
        ParamTypeS::ArrayImage => "Vec::new()"@,
        ParamTypeS::VipsInterpolate => "VipsInterpolate::new()"@,
        ParamTypeS::VipsImage { .. } => "VipsImage::new()"@,
        ParamTypeS::VipsBlob => "Vec::new()"@,
        ParamTypeS::Enum { name, entries, default } => enum_name_of(name) + "::"@ + class_of(
            default_entry(entries, default).nick,
        ),
    }
}

/// The documentation line of one enumeration entry.
pub open spec fn entry_doc_text(e: EnumerationS) -> Seq<char> {
    "///  `"@ + class_of(e.nick) + "` -> "@ + e.name + " = "@ + dec_int(e.value as int)
}

/// The documentation line of one entry, with the default one marked.
pub open spec fn marked_entry_doc(e: EnumerationS, default: i32) -> Seq<char> {
    if e.value == default {
        entry_doc_text(e) + " [DEFAULT]"@
    } else {
        entry_doc_text(e)
    }
}

/// The declaration line of one enumeration entry. One native constant keeps
/// a hand-picked variant name; every other takes its class-cased nickname.
pub open spec fn entry_code_text(e: EnumerationS) -> Seq<char> {
    entry_doc_text(e) + "\n"@ + (if e.name == "VIPS_INTERPRETATION_LABS"@ {
        "Labs"@
    } else {
        class_of(e.nick)
    }) + " = "@ + dec_int(e.value as int) + ","@
}

/// The documentation fragment of a kind: a numeric range, a default, or one
/// line per enumeration entry.
pub open spec fn type_doc_text(t: ParamTypeS) -> Seq<char> {
    match t {
        ParamTypeS::Int { min, max, default } => "/// min: "@ + dec_int(min as int) + ", max: "@
            + dec_int(max as int) + ", default: "@ + dec_int(default as int),
        ParamTypeS::UInt { min, max, default } => "/// min: "@ + dec_digits(min as nat)
            + ", max: "@ + dec_digits(max as nat) + ", default: "@ + dec_digits(default as nat),
        ParamTypeS::Double { min, max, default } => "/// min: "@ + min + ", max: "@ + max
            + ", default: "@ + default,
        ParamTypeS::Bool { default } => "/// default: "@ + (if default {
            "true"@
        } else {
            "false"@
        }),
        ParamTypeS::Enum { entries, default, .. } => join_with(
            entries.map_values(|e: EnumerationS| marked_entry_doc(e, default)),
            "\n"@,
        ),
        _ => Seq::empty(),
    }
}

/// The declaration of an enumerated type, or nothing for any other kind.
pub open spec fn enumeration_text(t: ParamTypeS) -> Seq<char> {
    match t {
        ParamTypeS::Enum { name, entries, .. } => "#[derive(Copy, Clone, Debug, FromPrimitive)]\npub enum "@
            + enum_name_of(name) + " {\n"@ + join_with(
            entries.map_values(|e: EnumerationS| entry_code_text(e)),
            "\n"@,
        ) + "\n}\n"@,
        _ => Seq::empty(),
    }
}

proof fn lemma_filter_none<A>(s: Seq<A>, pred: spec_fn(A) -> bool)
    requires
        forall|i: int| 0 <= i < s.len() ==> !pred(#[trigger] s[i]),
    ensures
        s.filter(pred).len() == 0,
    decreases s.len(),
{
    reveal(Seq::filter);
    if s.len() > 0 {
        assert(forall|i: int| 0 <= i < s.drop_last().len() ==> !pred(#[trigger] s.drop_last()[i]));
        lemma_filter_none(s.drop_last(), pred);
    }
}

impl Enumeration {
    /// The documentation line of this entry.
    pub fn doc(&self) -> (r: String)
        ensures
            r@ == entry_doc_text(self@),
    {
        let mut s = String::new();
        s.append("///  `");
        let nick = to_class_case(self.nick.as_str());
        s.append(nick.as_str());
        s.append("` -> ");
        s.append(self.name.as_str());
        s.append(" = ");
        let value = i32_to_string(self.value);
        s.append(value.as_str());
        proof {
            assert(s@ =~= entry_doc_text(self@));
        }
        s
    }

    /// The declaration line of this entry.
    pub fn code(&self) -> (r: String)
        ensures
            r@ == entry_code_text(self@),
    {
        let mut s = self.doc();
        s.append("\n");
        if str_eq(self.name.as_str(), "VIPS_INTERPRETATION_LABS") {
            s.append("Labs");
        } else {
            let nick = to_class_case(self.nick.as_str());
            s.append(nick.as_str());
        }
        s.append(" = ");
        let value = i32_to_string(self.value);
        s.append(value.as_str());
        s.append(",");
        proof {
            assert(s@ =~= entry_code_text(self@));
        }
        s
    }
}

impl ParamType {
    /// The target-facing declaration type.
    pub fn struct_type(&self) -> (r: String)
        ensures
            r@ == struct_type_text(self@),
    {
        match self {
            ParamType::Int { .. } => "i32".to_owned(),
            ParamType::UInt { .. } => "u64".to_owned(),
            ParamType::Double { .. } => "f64".to_owned(),
            ParamType::Str => "String".to_owned(),
            ParamType::Bool { .. } => "bool".to_owned(),
            ParamType::ArrayInt => "Vec<i32>".to_owned(),
            ParamType::ArrayDouble => "Vec<f64>".to_owned(),
            ParamType::ArrayByte => "Vec<u8>".to_owned(),
            ParamType::ArrayImage => "Vec<VipsImage>".to_owned(),
            ParamType::VipsInterpolate => "VipsInterpolate".to_owned(),
            ParamType::VipsImage { .. } => "VipsImage".to_owned(),
            ParamType::VipsBlob => "Vec<u8>".to_owned(),
            ParamType::Enum { name, .. } => enum_name(name.as_str()),
        }
    }

    /// The target-facing parameter type.
    pub fn param_type(&self) -> (r: String)
        ensures
            r@ == param_type_text(self@),
    {
        match self {
            ParamType::Int { .. } => "i32".to_owned(),
            ParamType::UInt { .. } => "u64".to_owned(),
            ParamType::Double { .. } => "f64".to_owned(),
            ParamType::Str => "&str".to_owned(),
            ParamType::Bool { .. } => "bool".to_owned(),
            ParamType::ArrayInt => "&mut [i32]".to_owned(),
            ParamType::ArrayDouble => "&mut [f64]".to_owned(),
            ParamType::ArrayByte => "&[u8]".to_owned(),
            ParamType::ArrayImage => "&mut [VipsImage]".to_owned(),
            ParamType::VipsInterpolate => "&VipsInterpolate".to_owned(),
            ParamType::VipsImage { .. } => "&VipsImage".to_owned(),
            ParamType::VipsBlob => "&[u8]".to_owned(),
            ParamType::Enum { name, .. } => enum_name(name.as_str()),
        }
    }

    /// The native-call representation type in the positional or the by-name
    /// context.
    pub fn vips_in_type(&self, is_optional: bool) -> (r: String)
        ensures
            r@ == vips_in_type_text(self@, is_optional),
    {
        match self {
            ParamType::Int { .. } => "i32".to_owned(),
            ParamType::UInt { .. } => "u64".to_owned(),
            ParamType::Double { .. } => "f64".to_owned(),
            ParamType::Str => "CString".to_owned(),
            ParamType::Bool { .. } => "i32".to_owned(),
            ParamType::ArrayInt => if !is_optional {
                "*mut i32".to_owned()
            } else {
                "utils::VipsArrayIntWrapper".to_owned()
            },
            ParamType::ArrayDouble => if !is_optional {
                "*mut f64".to_owned()
            } else {
                "utils::VipsArrayDoubleWrapper".to_owned()
            },
            ParamType::ArrayByte => "*mut c_void".to_owned(),
            ParamType::ArrayImage => if !is_optional {
                "*mut *mut bindings::VipsImage".to_owned()
            } else {
                "utils::VipsArrayImageWrapper".to_owned()
            },
            ParamType::VipsInterpolate => "*mut bindings::VipsInterpolate".to_owned(),
            ParamType::VipsImage { .. } => "*mut bindings::VipsImage".to_owned(),
            ParamType::VipsBlob => "*mut bindings::VipsBlob".to_owned(),
            ParamType::Enum { .. } => "i32".to_owned(),
        }
    }

    /// The native-call representation type in an output slot.
    pub fn vips_out_type(&self) -> (r: String)
        ensures
            r@ == vips_out_type_text(self@),
    {
        match self {
            ParamType::Int { .. } => "i32".to_owned(),
            ParamType::UInt { .. } => "u64".to_owned(),
            ParamType::Double { .. } => "f64".to_owned(),
            ParamType::Str => "*mut c_char".to_owned(),
            ParamType::Bool { .. } => "i32".to_owned(),
            ParamType::ArrayInt => "*mut i32".to_owned(),
            ParamType::ArrayDouble => "*mut f64".to_owned(),
            ParamType::ArrayByte => "*mut c_void".to_owned(),
            ParamType::ArrayImage => "*mut bindings::VipsImage".to_owned(),
            ParamType::VipsInterpolate => "*mut bindings::VipsInterpolate".to_owned(),
            ParamType::VipsImage { .. } => "*mut bindings::VipsImage".to_owned(),
            ParamType::VipsBlob => "*mut bindings::VipsBlob".to_owned(),
            ParamType::Enum { .. } => "*mut i32".to_owned(),
        }
    }

    /// The default-value expression. An enumeration kind must be well
    /// formed: its default value matches exactly one entry.
    pub fn default(&self) -> (r: String)
        requires
            wf_param_type(self@),
        ensures
            r@ == default_text(self@),
    {
        match self {
            ParamType::Int { default, .. } => {
                let mut s = "i32::from(".to_owned();
                let d = i32_to_string(*default);
                s.append(d.as_str());
                s.append(")");
                proof {
                    assert(s@ =~= default_text(self@));
                }
                s
            }
            ParamType::UInt { default, .. } => u64_to_string(*default),
            ParamType::Double { default, .. } => {
                let mut s = "f64::from(".to_owned();
                s.append(default.as_str());
                s.append(")");
                proof {
                    assert(s@ =~= default_text(self@));
                }
                s
            }
            ParamType::Str => "String::new()".to_owned(),
            ParamType::Bool { default } => if *default {
                "true".to_owned()
            } else {
                "false".to_owned()
            },
            ParamType::ArrayInt => "Vec::new()".to_owned(),
            ParamType::ArrayDouble => "Vec::new()".to_owned(),
            ParamType::ArrayByte => "Vec::new()".to_owned(),
            ParamType::ArrayImage => "Vec::new()".to_owned(),
            ParamType::VipsInterpolate => "VipsInterpolate::new()".to_owned(),
            ParamType::VipsImage { .. } => "VipsImage::new()".to_owned(),
            ParamType::VipsBlob => "Vec::new()".to_owned(),
            ParamType::Enum { name, entries, default } => {
                let ghost entries_v = entries@.map_values(|e: Enumeration| e@);
                let ghost pred = |e: EnumerationS| e.value == self@->Enum_default;
                let mut i: usize = 0;
                while i < entries.len()
                    invariant
                        0 <= i <= entries@.len(),
                        entries_v == entries@.map_values(|e: Enumeration| e@),
                        entries_v.len() == entries@.len(),
                        self@ == (ParamTypeS::Enum { name: name@, entries: entries_v, default: *default }),
                        default_matches(entries_v, *default).len() == 1,
                        forall|j: int| 0 <= j < i ==> #[trigger] entries_v[j].value != default,
                    decreases entries@.len() - i,
                {
                    if entries[i].value == *default {
                        proof {
                            let p = |e: EnumerationS| e.value == *default;
                            entries_v.lemma_filter_contains(p, i as int);
                            let found = entries_v[i as int];
                            let fs = entries_v.filter(p);
                            assert(fs.contains(found));
                            let idx = choose|idx: int| 0 <= idx < fs.len() && fs[idx] == found;
                            assert(fs[0] == found);
                            assert(default_entry(entries_v, *default) == found);
                        }
                        let mut s = enum_name(name.as_str());
                        s.append("::");
                        let nick = to_class_case(entries[i].nick.as_str());
                        s.append(nick.as_str());
                        proof {
                            assert(entries_v[i as int] == entries@[i as int]@);
                            assert(nick@ == class_of(default_entry(entries_v, *default).nick));
                            assert(s@ =~= default_text(self@));
                        }
                        return s;
                    }
                    i = i + 1;
                }
                proof {
                    let p = |e: EnumerationS| e.value == *default;
                    lemma_filter_none(entries_v, p);
                    assert(default_matches(entries_v, *default).len() == 0);
                    assert(false);
                }
                "".to_owned()
            }
        }
    }

    /// The documentation fragment of this kind.
    pub fn doc(&self) -> (r: String)
        ensures
            r@ == type_doc_text(self@),
    {
        match self {
            ParamType::Int { min, max, default } => {
                let mut s = "/// min: ".to_owned();
                let a = i32_to_string(*min);
                s.append(a.as_str());
                s.append(", max: ");
                let b = i32_to_string(*max);
                s.append(b.as_str());
                s.append(", default: ");
                let c = i32_to_string(*default);
                s.append(c.as_str());
                proof {
                    assert(s@ =~= type_doc_text(self@));
                }
                s
            }
            ParamType::UInt { min, max, default } => {
                let mut s = "/// min: ".to_owned();
                let a = u64_to_string(*min);
                s.append(a.as_str());
                s.append(", max: ");
                let b = u64_to_string(*max);
                s.append(b.as_str());
                s.append(", default: ");
                let c = u64_to_string(*default);
                s.append(c.as_str());
                proof {
                    assert(s@ =~= type_doc_text(self@));
                }
                s
            }
            ParamType::Double { min, max, default } => {
                let mut s = "/// min: ".to_owned();
                s.append(min.as_str());
                s.append(", max: ");
                s.append(max.as_str());
                s.append(", default: ");
                s.append(default.as_str());
                proof {
                    assert(s@ =~= type_doc_text(self@));
                }
                s
            }
            ParamType::Bool { default } => {
                let mut s = "/// default: ".to_owned();
                if *default {
                    s.append("true");
                } else {
                    s.append("false");
                }
                proof {
                    assert(s@ =~= type_doc_text(self@));
                }
                s
            }
            ParamType::Enum { entries, default, .. } => {
                let ghost entries_v = entries@.map_values(|e: Enumeration| e@);
                let ghost f = |e: EnumerationS| marked_entry_doc(e, *default);
                let mut s = String::new();
                let mut i: usize = 0;
                proof {
                    assert(entries_v.take(0).map_values(f) =~= Seq::<Seq<char>>::empty());
                }
                while i < entries.len()
                    invariant
                        0 <= i <= entries@.len(),
                        entries_v == entries@.map_values(|e: Enumeration| e@),
                        entries_v.len() == entries@.len(),
                        f == (|e: EnumerationS| marked_entry_doc(e, *default)),
                        s@ == join_with(entries_v.take(i as int).map_values(f), "\n"@),
                    decreases entries@.len() - i,
                {
                    let mut piece = entries[i].doc();
                    if entries[i].value == *default {
                        piece.append(" [DEFAULT]");
                    }
                    proof {
                        assert(piece@ =~= marked_entry_doc(entries_v[i as int], *default));
                        lemma_join_push(entries_v.take(i as int).map_values(f), "\n"@, piece@);
                        assert(entries_v.take(i as int + 1).map_values(f) =~= entries_v.take(
                            i as int,
                        ).map_values(f).push(f(entries_v[i as int])));
                    }
                    if i > 0 {
                        s.append("\n");
                    }
                    s.append(piece.as_str());
                    proof {
                        if i == 0 {
                            assert(entries_v.take(0).map_values(f).len() == 0);
                            assert(s@ =~= join_with(entries_v.take(1).map_values(f), "\n"@));
                        } else {
                            assert(s@ =~= join_with(
                                entries_v.take(i as int + 1).map_values(f),
                                "\n"@,
                            ));
                        }
                    }
                    i = i + 1;
                }
                proof {
                    assert(entries_v.take(entries_v.len() as int) =~= entries_v);
                }
                s
            }
            _ => {
                let s = String::new();
                proof {
                    assert(s@ =~= type_doc_text(self@));
                }
                s
            }
        }
    }

    /// The declaration of this kind's enumerated type, or nothing for any
    /// other kind.
    pub fn enumeration(&self) -> (r: String)
        ensures
            r@ == enumeration_text(self@),
    {
        match self {
            ParamType::Enum { name, entries, .. } => {
                let ghost entries_v = entries@.map_values(|e: Enumeration| e@);
                let ghost f = |e: EnumerationS| entry_code_text(e);
                let mut s = "#[derive(Copy, Clone, Debug, FromPrimitive)]\npub enum ".to_owned();
                let en = enum_name(name.as_str());
                s.append(en.as_str());
                s.append(" {\n");
                let mut body = String::new();
                let mut i: usize = 0;
                proof {
                    assert(entries_v.take(0).map_values(f) =~= Seq::<Seq<char>>::empty());
                }
                while i < entries.len()
                    invariant
                        0 <= i <= entries@.len(),
                        entries_v == entries@.map_values(|e: Enumeration| e@),
                        entries_v.len() == entries@.len(),
                        f == (|e: EnumerationS| entry_code_text(e)),
                        body@ == join_with(entries_v.take(i as int).map_values(f), "\n"@),
                    decreases entries@.len() - i,
                {
                    let piece = entries[i].code();
                    proof {
                        assert(piece@ =~= f(entries_v[i as int]));
                        lemma_join_push(entries_v.take(i as int).map_values(f), "\n"@, piece@);
                        assert(entries_v.take(i as int + 1).map_values(f) =~= entries_v.take(
                            i as int,
                        ).map_values(f).push(f(entries_v[i as int])));
                    }
                    if i > 0 {
                        body.append("\n");
                    }
                    body.append(piece.as_str());
                    proof {
                        if i == 0 {
                            assert(body@ =~= join_with(entries_v.take(1).map_values(f), "\n"@));
                        } else {
                            assert(body@ =~= join_with(
                                entries_v.take(i as int + 1).map_values(f),
                                "\n"@,
                            ));
                        }
                    }
                    i = i + 1;
                }
                proof {
                    assert(entries_v.take(entries_v.len() as int) =~= entries_v);
                }
                s.append(body.as_str());
                s.append("\n}\n");
                proof {
                    assert(s@ =~= enumeration_text(self@));
                }
                s
            }
            _ => {
                let s = String::new();
                proof {
                    assert(s@ =~= enumeration_text(self@));
                }
                s
            }
        }
    }
}

} // verus!
