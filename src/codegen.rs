//! Emitting Rust declarations for a decoded definition.
use vstd::prelude::*;
use crate::casing::{convert_casing_to_pascal, pascal_of};
use crate::model::{
    props_view, strings_view, Lexicon, LexiconPrimitive, LexiconType, LexiconV,
    LexiconXrpcQueryProc, ParametersV, PrimitiveV, QueryProcV, TypeV,
};

verus! {

/// Why a definition could not be turned into declarations.
#[derive(Debug)]
pub enum GenError {
    /// A kind of definition that has no declarations yet; `variant` is its
    /// type tag.
    UnsupportedVariant { id: String, variant: String },
}

pub enum GenErrorV {
    UnsupportedVariant(Seq<char>, Seq<char>),
}

impl View for GenError {
    type V = GenErrorV;

    open spec fn view(&self) -> GenErrorV {
        match self {
            GenError::UnsupportedVariant { id, variant } => GenErrorV::UnsupportedVariant(
                id@,
                variant@,
            ),
        }
    }
}

/// The text after the last `.` of an identifier; all of it when there is
/// no `.`.
pub open spec fn last_segment(id: Seq<char>) -> Seq<char>
    decreases id.len(),
{
    if id.len() == 0 {
        id
    } else if id.last() == '.' {
        Seq::empty()
    } else {
        last_segment(id.drop_last()).push(id.last())
    }
}

/// The name of the declarations made for the definition `id`.
pub open spec fn decl_name(id: Seq<char>) -> Seq<char> {
    pascal_of(last_segment(id))
}

pub open spec fn rust_type(p: PrimitiveV) -> Seq<char> {
    match p {
        PrimitiveV::Boolean => "bool"@,
        PrimitiveV::Number => "f64"@,
        PrimitiveV::Integer => "i64"@,
        PrimitiveV::String(_) => "String"@,
    }
}

pub open spec fn field_line(name: Seq<char>, ty: Seq<char>, required: bool) -> Seq<char> {
    "    pub "@ + name + ": "@ + (if required {
        ty
    } else {
        "Option<"@ + ty + ">"@
    }) + ",\n"@
}

/// One line per field, in order; a field is wrapped in `Option` unless
/// `all_required` holds or its name is in `required`.
pub open spec fn fields_text(
    props: Seq<(Seq<char>, PrimitiveV)>,
    required: Seq<Seq<char>>,
    all_required: bool,
) -> Seq<char>
    decreases props.len(),
{
    if props.len() == 0 {
        Seq::empty()
    } else {
        fields_text(props.drop_last(), required, all_required) + field_line(
            props.last().0,
            rust_type(props.last().1),
            all_required || required.contains(props.last().0),
        )
    }
}

pub open spec fn struct_text(name: Seq<char>, body: Seq<char>) -> Seq<char> {
    "pub struct "@ + name + " {\n"@ + body + "}\n"@
}

pub open spec fn queryproc_text(name: Seq<char>, q: QueryProcV) -> Seq<char> {
    (match q.parameters {
        Some(p) => struct_text(name + "Params"@, fields_text(p.properties, Seq::empty(), true)),
        None => Seq::empty(),
    }) + (match q.input {
        Some(b) => struct_text(
            name + "Input"@,
            fields_text(b.schema.properties, b.schema.required, false),
        ),
        None => Seq::empty(),
    }) + (match q.output {
        Some(b) => struct_text(
            name + "Output"@,
            fields_text(b.schema.properties, b.schema.required, false),
        ),
        None => Seq::empty(),
    })
}

/// The declarations made for a definition; `None` for the kinds that have
/// none yet.
pub open spec fn generated(l: LexiconV) -> Option<Seq<char>> {
    match l.typ {
        TypeV::Object(o) => Some(
            struct_text(decl_name(l.id), fields_text(o.properties, o.required, false)),
        ),
        TypeV::Query(q) => Some(queryproc_text(decl_name(l.id), q)),
        TypeV::Procedure(q) => Some(queryproc_text(decl_name(l.id), q)),
        _ => None,
    }
}

/// The type tag of a variant.
pub open spec fn variant_tag(t: TypeV) -> Seq<char> {
    match t {
        TypeV::Token => "token"@,
        TypeV::Object(_) => "object"@,
        TypeV::Record(_) => "record"@,
        TypeV::Query(_) => "query"@,
        TypeV::Procedure(_) => "procedure"@,
        TypeV::Blob => "blob"@,
        TypeV::Image => "image"@,
        TypeV::Video => "video"@,
        TypeV::Audio => "audio"@,
    }
}

proof fn lemma_last_segment(s: Seq<char>, j: int)
    requires
        0 <= j <= s.len(),
        j == 0 || s[j - 1] == '.',
        forall|k: int| j <= k < s.len() ==> s[k] != '.',
    ensures
        last_segment(s) == s.subrange(j, s.len() as int),
    decreases s.len(),
{
    if s.len() == j {
        assert(s.subrange(j, s.len() as int) =~= Seq::<char>::empty());
        if j > 0 {
            assert(s.last() == '.');
        }
    } else {
        let t = s.drop_last();
        lemma_last_segment(t, j);
        assert(s.subrange(j, s.len() as int) =~= t.subrange(j, t.len() as int).push(s.last()));
    }
}

/// The name of the declarations made for the definition `id`: the last
/// dotted segment, in PascalCase.
pub fn decl_name_of(id: &str) -> (r: String)
    ensures
        r@ == decl_name(id@),
{
    let n = id.unicode_len();
    let mut j = n;
    while j > 0 && id.get_char(j - 1) != '.'
        invariant
            j <= n,
            n == id@.len(),
            forall|k: int| j <= k < n ==> id@[k] != '.',
        decreases j,
    {
        j = j - 1;
    }
    proof {
        lemma_last_segment(id@, j as int);
    }
    let seg = id.substring_char(j, n);
    convert_casing_to_pascal(seg)
}

fn rust_type_of(p: &LexiconPrimitive) -> (r: &'static str)
    ensures
        r@ == rust_type(p@),
{
    match p {
        LexiconPrimitive::Boolean => "bool",
        LexiconPrimitive::Number => "f64",
        LexiconPrimitive::Integer => "i64",
        LexiconPrimitive::String { .. } => "String",
    }
}

/// Whether `name` is one of `names`.
pub fn contains_name(names: &Vec<String>, name: &String) -> (r: bool)
    ensures
        r == strings_view(names@).contains(name@),
{
    let mut i: usize = 0;
    while i < names.len()
        invariant
            i <= names@.len(),
            forall|k: int| 0 <= k < i ==> names@[k]@ != name@,
        decreases names@.len() - i,
    {
        if names[i] == *name {
            assert(strings_view(names@)[i as int] == name@);
            return true;
        }
        i = i + 1;
    }
    assert forall|k: int| 0 <= k < strings_view(names@).len() implies strings_view(names@)[k]
        != name@ by {
        assert(strings_view(names@)[k] == names@[k]@);
    }
    false
}

/// One line per field; see `fields_text`.
pub fn codegen_fields(
    props: &Vec<(String, LexiconPrimitive)>,
    required: &Vec<String>,
    all_required: bool,
) -> (r: String)
    ensures
        r@ == fields_text(props_view(props@), strings_view(required@), all_required),
{
    let mut out = String::new();
    let mut i: usize = 0;
    while i < props.len()
        invariant
            i <= props@.len(),
            out@ == fields_text(
                props_view(props@.subrange(0, i as int)),
                strings_view(required@),
                all_required,
            ),
        decreases props@.len() - i,
    {
        let ghost old_out = out@;
        let name = &props[i].0;
        let ty = rust_type_of(&props[i].1);
        let req = all_required || contains_name(required, name);
        out.append("    pub ");
        out.append(name.as_str());
        out.append(": ");
        if req {
            out.append(ty);
        } else {
            out.append("Option<");
            out.append(ty);
            out.append(">");
        }
        out.append(",\n");
        proof {
            let pv = props_view(props@.subrange(0, i + 1));
            assert(pv.drop_last() =~= props_view(props@.subrange(0, i as int)));
            assert(pv.last() == (name@, props@[i as int].1@));
            assert(out@ =~= old_out + field_line(name@, ty@, req));
        }
        i = i + 1;
    }
    assert(props@.subrange(0, props@.len() as int) =~= props@);
    out
}

/// A `pub struct` named `name` with the given field lines.
pub fn struct_decl(name: &str, body: &str) -> (r: String)
    ensures
        r@ == struct_text(name@, body@),
{
    let mut out = String::new();
    out.append("pub struct ");
    out.append(name);
    out.append(" {\n");
    out.append(body);
    out.append("}\n");
    assert(out@ =~= struct_text(name@, body@));
    out
}

fn suffixed(name: &String, suffix: &str) -> (r: String)
    ensures
        r@ == name@ + suffix@,
{
    let mut n = name.clone();
    n.append(suffix);
    n
}

impl Lexicon {
    /// The declarations for this definition: one structure for an object, and
    /// up to three (`Params`, `Input`, `Output`) for a query or a procedure.
    /// Every other kind fails with `UnsupportedVariant`.
    pub fn codegen(&self) -> (r: Result<String, GenError>)
        ensures
            r is Ok <==> generated(self@) is Some,
            match r {
                Ok(t) => generated(self@) == Some(t@),
                Err(e) => e@ == GenErrorV::UnsupportedVariant(self.id@, variant_tag(self@.typ)),
            },
    {
        match &self.typ {
            LexiconType::Object { inner } => {
                let name = decl_name_of(self.id.as_str());
                let body = codegen_fields(&inner.properties, &inner.required, false);
                Ok(struct_decl(name.as_str(), body.as_str()))
            },
            LexiconType::Query { inner } => Ok(self.codegen_queryproc(inner)),
            LexiconType::Procedure { inner } => Ok(self.codegen_queryproc(inner)),
            LexiconType::Token => Err(self.unsupported("token")),
            LexiconType::Record { .. } => Err(self.unsupported("record")),
            LexiconType::Blob => Err(self.unsupported("blob")),
            LexiconType::Image => Err(self.unsupported("image")),
            LexiconType::Video => Err(self.unsupported("video")),
            LexiconType::Audio => Err(self.unsupported("audio")),
        }
    }

    fn unsupported(&self, tag: &str) -> (e: GenError)
        ensures
            e@ == GenErrorV::UnsupportedVariant(self.id@, tag@),
    {
        GenError::UnsupportedVariant { id: self.id.clone(), variant: tag.to_owned() }
    }

    /// The `Params`, `Input` and `Output` structures of a query or a
    /// procedure, each only when its part is defined.
    pub fn codegen_queryproc(&self, procedure: &LexiconXrpcQueryProc) -> (r: String)
        ensures
            r@ == queryproc_text(decl_name(self.id@), procedure@),
    {
        let name = decl_name_of(self.id.as_str());
        let mut result = String::new();
        let ghost q = procedure@;
        let none: Vec<String> = Vec::new();
        assert(strings_view(none@) =~= Seq::<Seq<char>>::empty());
        if let Some(p) = &procedure.parameters {
            let n = suffixed(&name, "Params");
            let body = codegen_fields(&p.properties, &none, true);
            let s = struct_decl(n.as_str(), body.as_str());
            result.append(s.as_str());
        }
        let ghost part1 = result@;
        if let Some(b) = &procedure.input {
            let n = suffixed(&name, "Input");
            let body = codegen_fields(&b.schema.properties, &b.schema.required, false);
            let s = struct_decl(n.as_str(), body.as_str());
            result.append(s.as_str());
        }
        let ghost part2 = result@;
        if let Some(b) = &procedure.output {
            let n = suffixed(&name, "Output");
            let body = codegen_fields(&b.schema.properties, &b.schema.required, false);
            let s = struct_decl(n.as_str(), body.as_str());
            result.append(s.as_str());
        }
        assert(result@ =~= queryproc_text(decl_name(self.id@), q));
        result
    }
}

/// A procedure that defines only an output body gets exactly one
/// structure, `<Name>Output`, and no `Params` or `Input` structure.
pub proof fn law_output_only_procedure(l: LexiconV)
    requires
        l.typ is Procedure,
        l.typ->Procedure_0.parameters is None,
        l.typ->Procedure_0.input is None,
        l.typ->Procedure_0.output is Some,
    ensures
        generated(l) == Some(
            struct_text(
                decl_name(l.id) + "Output"@,
                fields_text(
                    l.typ->Procedure_0.output->Some_0.schema.properties,
                    l.typ->Procedure_0.output->Some_0.schema.required,
                    false,
                ),
            ),
        ),
{
    let q = l.typ->Procedure_0;
    let b = q.output->Some_0;
    let s = struct_text(decl_name(l.id) + "Output"@, fields_text(b.schema.properties, b.schema.required, false));
    assert(queryproc_text(decl_name(l.id), q) =~= s);
}

/// Tokens, records and binary markers have no declarations: generating
/// them fails instead of giving an empty text.
pub proof fn law_unsupported_variants(l: LexiconV)
    requires
        !(l.typ is Object || l.typ is Query || l.typ is Procedure),
    ensures
        generated(l) is None,
{
}

} // verus!
