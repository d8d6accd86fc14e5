//! Decoding a definition's JSON into the typed model.
//!
//! Each spec function below says what a part of a definition decodes to, or
//! why it fails: `Err(Some(tag))` for a type tag outside the known set, and
//! `Err(None)` for a missing or ill-typed member.
use vstd::prelude::*;
use crate::json::{field, present, get_field, get_present, str_eq, Json};
use crate::model::{
    opt_view, props_view, strings_view, BodyV, ErrorV, Lexicon, LexiconObject, LexiconPrimitive,
    LexiconRecord, LexiconType, LexiconV, LexiconXrpcQueryProc, ObjectV, ParametersV, PrimitiveV,
    QueryProcV, RecordV, TypeV, XrpcBody, XrpcError, XrpcParameters,
};

verus! {

/// Why a document or a definition could not be loaded.
#[derive(Debug)]
pub enum LoadError {
    /// The bytes are not JSON, or lack the document's envelope.
    MalformedDocument,
    /// A `type` tag outside the known set.
    UnknownVariant { id: String, tag: String },
    /// A known variant whose members are missing or of the wrong kind.
    SchemaMismatch { id: String },
}

pub enum LoadErrorV {
    MalformedDocument,
    UnknownVariant(Seq<char>, Seq<char>),
    SchemaMismatch(Seq<char>),
}

impl View for LoadError {
    type V = LoadErrorV;

    open spec fn view(&self) -> LoadErrorV {
        match self {
            LoadError::MalformedDocument => LoadErrorV::MalformedDocument,
            LoadError::UnknownVariant { id, tag } => LoadErrorV::UnknownVariant(id@, tag@),
            LoadError::SchemaMismatch { id } => LoadErrorV::SchemaMismatch(id@),
        }
    }
}

/// The error reported for the definition `id` that failed as `f` says.
pub open spec fn fault_error(f: Option<Seq<char>>, id: Seq<char>) -> LoadErrorV {
    match f {
        Some(tag) => LoadErrorV::UnknownVariant(id, tag),
        None => LoadErrorV::SchemaMismatch(id),
    }
}

pub open spec fn str_of(j: Option<Json>) -> Result<Seq<char>, Option<Seq<char>>> {
    match j {
        Some(Json::Str(s)) => Ok(s@),
        _ => Err(None),
    }
}

pub open spec fn opt_str_of(j: Option<Json>) -> Result<Option<Seq<char>>, Option<Seq<char>>> {
    match j {
        None => Ok(None),
        Some(Json::Str(s)) => Ok(Some(s@)),
        _ => Err(None),
    }
}

/// The strings of an array, from index `i` on.
pub open spec fn strings_from(xs: Seq<Json>, i: int) -> Result<Seq<Seq<char>>, Option<Seq<char>>>
    decreases xs.len() - i,
{
    if i < 0 || i >= xs.len() {
        Ok(Seq::empty())
    } else {
        match xs[i] {
            Json::Str(s) => match strings_from(xs, i + 1) {
                Ok(rest) => Ok(seq![s@] + rest),
                Err(e) => Err(e),
            },
            _ => Err(None),
        }
    }
}

pub open spec fn primitive_of(j: Json) -> Result<PrimitiveV, Option<Seq<char>>> {
    match j {
        Json::Object(fs) => match field(fs@, "type"@) {
            Some(Json::Str(t)) => if t@ == "boolean"@ {
                Ok(PrimitiveV::Boolean)
            } else if t@ == "number"@ {
                Ok(PrimitiveV::Number)
            } else if t@ == "integer"@ {
                Ok(PrimitiveV::Integer)
            } else if t@ == "string"@ {
                match present(fs@, "enum"@) {
                    None => Ok(PrimitiveV::String(None)),
                    Some(Json::Array(xs)) => match strings_from(xs@, 0) {
                        Ok(v) => Ok(PrimitiveV::String(Some(v))),
                        Err(e) => Err(e),
                    },
                    Some(_) => Err(None),
                }
            } else {
                Err(Some(t@))
            },
            _ => Err(None),
        },
        _ => Err(None),
    }
}

/// The named fields of a `properties` object, from index `i` on.
pub open spec fn props_from(ps: Seq<(String, Json)>, i: int) -> Result<
    Seq<(Seq<char>, PrimitiveV)>,
    Option<Seq<char>>,
>
    decreases ps.len() - i,
{
    if i < 0 || i >= ps.len() {
        Ok(Seq::empty())
    } else {
        match primitive_of(ps[i].1) {
            Ok(p) => match props_from(ps, i + 1) {
                Ok(rest) => Ok(seq![(ps[i].0@, p)] + rest),
                Err(e) => Err(e),
            },
            Err(e) => Err(e),
        }
    }
}

pub open spec fn object_of(fs: Seq<(String, Json)>) -> Result<ObjectV, Option<Seq<char>>> {
    match field(fs, "properties"@) {
        Some(Json::Object(ps)) => match props_from(ps@, 0) {
            Err(e) => Err(e),
            Ok(props) => match present(fs, "required"@) {
                None => Ok(ObjectV { required: Seq::empty(), properties: props }),
                Some(Json::Array(xs)) => match strings_from(xs@, 0) {
                    Ok(r) => if names_declared(r, props) {
                        Ok(ObjectV { required: r, properties: props })
                    } else {
                        Err(None)
                    },
                    Err(e) => Err(e),
                },
                Some(_) => Err(None),
            },
        },
        _ => Err(None),
    }
}

/// Every required name is the name of a field.
pub open spec fn names_declared(
    required: Seq<Seq<char>>,
    props: Seq<(Seq<char>, PrimitiveV)>,
) -> bool {
    forall|i: int| 0 <= i < required.len() ==> declared(#[trigger] required[i], props)
}

/// `name` is the name of a field.
pub open spec fn declared(name: Seq<char>, props: Seq<(Seq<char>, PrimitiveV)>) -> bool {
    exists|k: int| 0 <= k < props.len() && (#[trigger] props[k]).0 == name
}

pub open spec fn object_member_of(j: Option<Json>) -> Result<ObjectV, Option<Seq<char>>> {
    match j {
        Some(Json::Object(fs)) => object_of(fs@),
        _ => Err(None),
    }
}

pub open spec fn record_of(fs: Seq<(String, Json)>) -> Result<RecordV, Option<Seq<char>>> {
    match opt_str_of(present(fs, "key"@)) {
        Err(e) => Err(e),
        Ok(k) => match object_member_of(field(fs, "record"@)) {
            Ok(o) => Ok(RecordV { key: k, record: o }),
            Err(e) => Err(e),
        },
    }
}

pub open spec fn params_of(j: Json) -> Result<ParametersV, Option<Seq<char>>> {
    match j {
        Json::Object(fs) => match str_of(field(fs@, "type"@)) {
            Err(e) => Err(e),
            Ok(t) => match field(fs@, "properties"@) {
                Some(Json::Object(ps)) => match props_from(ps@, 0) {
                    Ok(p) => Ok(ParametersV { typ: t, properties: p }),
                    Err(e) => Err(e),
                },
                _ => Err(None),
            },
        },
        _ => Err(None),
    }
}

pub open spec fn body_of(j: Json) -> Result<BodyV, Option<Seq<char>>> {
    match j {
        Json::Object(fs) => match str_of(field(fs@, "encoding"@)) {
            Err(e) => Err(e),
            Ok(enc) => match object_member_of(field(fs@, "schema"@)) {
                Ok(o) => Ok(BodyV { encoding: enc, schema: o }),
                Err(e) => Err(e),
            },
        },
        _ => Err(None),
    }
}

pub open spec fn error_of(j: Json) -> Result<ErrorV, Option<Seq<char>>> {
    match j {
        Json::Object(fs) => match str_of(field(fs@, "name"@)) {
            Err(e) => Err(e),
            Ok(n) => match opt_str_of(present(fs@, "description"@)) {
                Ok(d) => Ok(ErrorV { name: n, description: d }),
                Err(e) => Err(e),
            },
        },
        _ => Err(None),
    }
}

/// The entries of an `errors` array, from index `i` on.
pub open spec fn errors_from(xs: Seq<Json>, i: int) -> Result<Seq<ErrorV>, Option<Seq<char>>>
    decreases xs.len() - i,
{
    if i < 0 || i >= xs.len() {
        Ok(Seq::empty())
    } else {
        match error_of(xs[i]) {
            Ok(e) => match errors_from(xs, i + 1) {
                Ok(rest) => Ok(seq![e] + rest),
                Err(f) => Err(f),
            },
            Err(f) => Err(f),
        }
    }
}

pub open spec fn opt_params_of(o: Option<Json>) -> Result<Option<ParametersV>, Option<Seq<char>>> {
    match o {
        None => Ok(None),
        Some(j) => match params_of(j) {
            Ok(p) => Ok(Some(p)),
            Err(e) => Err(e),
        },
    }
}

pub open spec fn opt_body_of(o: Option<Json>) -> Result<Option<BodyV>, Option<Seq<char>>> {
    match o {
        None => Ok(None),
        Some(j) => match body_of(j) {
            Ok(b) => Ok(Some(b)),
            Err(e) => Err(e),
        },
    }
}

pub open spec fn errors_member_of(o: Option<Json>) -> Result<Seq<ErrorV>, Option<Seq<char>>> {
    match o {
        None => Ok(Seq::empty()),
        Some(Json::Array(xs)) => errors_from(xs@, 0),
        Some(_) => Err(None),
    }
}

pub open spec fn queryproc_of(fs: Seq<(String, Json)>) -> Result<QueryProcV, Option<Seq<char>>> {
    match opt_params_of(present(fs, "parameters"@)) {
        Err(e) => Err(e),
        Ok(p) => match opt_body_of(present(fs, "input"@)) {
            Err(e) => Err(e),
            Ok(i) => match opt_body_of(present(fs, "output"@)) {
                Err(e) => Err(e),
                Ok(o) => match errors_member_of(present(fs, "errors"@)) {
                    Err(e) => Err(e),
                    Ok(es) => Ok(QueryProcV { parameters: p, input: i, output: o, errors: es }),
                },
            },
        },
    }
}

/// The variant that the tag `t` names, with its payload read from `fs`.
pub open spec fn typ_of(fs: Seq<(String, Json)>, t: Seq<char>) -> Result<TypeV, Option<Seq<char>>> {
    if t == "token"@ {
        Ok(TypeV::Token)
    } else if t == "object"@ {
        match object_of(fs) {
            Ok(o) => Ok(TypeV::Object(o)),
            Err(e) => Err(e),
        }
    } else if t == "record"@ {
        match record_of(fs) {
            Ok(r) => Ok(TypeV::Record(r)),
            Err(e) => Err(e),
        }
    } else if t == "query"@ {
        match queryproc_of(fs) {
            Ok(q) => Ok(TypeV::Query(q)),
            Err(e) => Err(e),
        }
    } else if t == "procedure"@ {
        match queryproc_of(fs) {
            Ok(q) => Ok(TypeV::Procedure(q)),
            Err(e) => Err(e),
        }
    } else if t == "blob"@ {
        Ok(TypeV::Blob)
    } else if t == "image"@ {
        Ok(TypeV::Image)
    } else if t == "video"@ {
        Ok(TypeV::Video)
    } else if t == "audio"@ {
        Ok(TypeV::Audio)
    } else {
        Err(Some(t))
    }
}

pub open spec fn revision_of(o: Option<Json>) -> Result<Option<i32>, Option<Seq<char>>> {
    match o {
        None => Ok(None),
        Some(Json::Number(Some(n))) => if i32::MIN <= n <= i32::MAX {
            Ok(Some(n as i32))
        } else {
            Err(None)
        },
        Some(_) => Err(None),
    }
}

/// What the definition `j` decodes to, given the identifier `id`.
pub open spec fn lexicon_of(j: Json, id: Seq<char>) -> Result<LexiconV, Option<Seq<char>>> {
    match j {
        Json::Object(fs) => match field(fs@, "type"@) {
            Some(Json::Str(t)) => match typ_of(fs@, t@) {
                Err(e) => Err(e),
                Ok(ty) => match revision_of(present(fs@, "revision"@)) {
                    Err(e) => Err(e),
                    Ok(rv) => match opt_str_of(present(fs@, "description"@)) {
                        Err(e) => Err(e),
                        Ok(d) => Ok(LexiconV { id, revision: rv, description: d, typ: ty }),
                    },
                },
            },
            _ => Err(None),
        },
        _ => Err(None),
    }
}

fn string_member(fs: &Vec<(String, Json)>, key: &str) -> (r: Result<String, Option<String>>)
    ensures
        match r {
            Ok(s) => str_of(field(fs@, key@)) == Ok::<Seq<char>, Option<Seq<char>>>(s@),
            Err(e) => str_of(field(fs@, key@)) == Err::<Seq<char>, Option<Seq<char>>>(opt_view(e)),
        },
{
    match get_field(fs, key) {
        Some(Json::Str(s)) => Ok(s.clone()),
        _ => Err(None),
    }
}

fn opt_string_member(fs: &Vec<(String, Json)>, key: &str) -> (r: Result<
    Option<String>,
    Option<String>,
>)
    ensures
        match r {
            Ok(s) => opt_str_of(present(fs@, key@)) == Ok::<Option<Seq<char>>, Option<Seq<char>>>(
                opt_view(s),
            ),
            Err(e) => opt_str_of(present(fs@, key@)) == Err::<
                Option<Seq<char>>,
                Option<Seq<char>>,
            >(opt_view(e)),
        },
{
    match get_present(fs, key) {
        None => Ok(None),
        Some(Json::Str(s)) => Ok(Some(s.clone())),
        Some(_) => Err(None),
    }
}

fn strings_from_json(xs: &Vec<Json>) -> (r: Result<Vec<String>, Option<String>>)
    ensures
        match r {
            Ok(v) => strings_from(xs@, 0) == Ok::<Seq<Seq<char>>, Option<Seq<char>>>(
                strings_view(v@),
            ),
            Err(e) => strings_from(xs@, 0) == Err::<Seq<Seq<char>>, Option<Seq<char>>>(
                opt_view(e),
            ),
        },
{
    let mut out: Vec<String> = Vec::new();
    let mut i: usize = 0;
    while i < xs.len()
        invariant
            i <= xs@.len(),
            strings_from(xs@, 0) == match strings_from(xs@, i as int) {
                Ok(rest) => Ok(strings_view(out@) + rest),
                Err(e) => Err(e),
            },
        decreases xs@.len() - i,
    {
        match &xs[i] {
            Json::Str(s) => {
                let ghost old_out = out@;
                out.push(s.clone());
                proof {
                    assert(strings_view(out@) =~= strings_view(old_out) + seq![s@]);
                    match strings_from(xs@, i + 1) {
                        Ok(rest) => {
                            assert(strings_view(out@) + rest =~= strings_view(old_out) + (seq![
                                s@,
                            ] + rest));
                        },
                        Err(_) => {},
                    }
                }
            },
            _ => {
                return Err(None);
            },
        }
        i = i + 1;
    }
    assert(strings_view(out@) + Seq::<Seq<char>>::empty() =~= strings_view(out@));
    Ok(out)
}

fn primitive_from_json(j: &Json) -> (r: Result<LexiconPrimitive, Option<String>>)
    ensures
        match r {
            Ok(p) => primitive_of(*j) == Ok::<PrimitiveV, Option<Seq<char>>>(p@),
            Err(e) => primitive_of(*j) == Err::<PrimitiveV, Option<Seq<char>>>(opt_view(e)),
        },
{
    match j {
        Json::Object(fs) => match get_field(fs, "type") {
            Some(Json::Str(t)) => {
                if str_eq(t.as_str(), "boolean") {
                    Ok(LexiconPrimitive::Boolean)
                } else if str_eq(t.as_str(), "number") {
                    Ok(LexiconPrimitive::Number)
                } else if str_eq(t.as_str(), "integer") {
                    Ok(LexiconPrimitive::Integer)
                } else if str_eq(t.as_str(), "string") {
                    match get_present(fs, "enum") {
                        None => Ok(LexiconPrimitive::String { enum_values: None }),
                        Some(Json::Array(xs)) => match strings_from_json(xs) {
                            Ok(v) => Ok(LexiconPrimitive::String { enum_values: Some(v) }),
                            Err(e) => Err(e),
                        },
                        Some(_) => Err(None),
                    }
                } else {
                    Err(Some(t.clone()))
                }
            },
            _ => Err(None),
        },
        _ => Err(None),
    }
}

fn props_from_json(ps: &Vec<(String, Json)>) -> (r: Result<
    Vec<(String, LexiconPrimitive)>,
    Option<String>,
>)
    ensures
        match r {
            Ok(v) => props_from(ps@, 0) == Ok::<Seq<(Seq<char>, PrimitiveV)>, Option<Seq<char>>>(
                props_view(v@),
            ),
            Err(e) => props_from(ps@, 0) == Err::<
                Seq<(Seq<char>, PrimitiveV)>,
                Option<Seq<char>>,
            >(opt_view(e)),
        },
{
    let mut out: Vec<(String, LexiconPrimitive)> = Vec::new();
    let mut i: usize = 0;
    while i < ps.len()
        invariant
            i <= ps@.len(),
            props_from(ps@, 0) == match props_from(ps@, i as int) {
                Ok(rest) => Ok(props_view(out@) + rest),
                Err(e) => Err(e),
            },
        decreases ps@.len() - i,
    {
        match primitive_from_json(&ps[i].1) {
            Ok(p) => {
                let ghost old_out = out@;
                let ghost item = (ps@[i as int].0@, p@);
                out.push((ps[i].0.clone(), p));
                proof {
                    assert(props_view(out@) =~= props_view(old_out) + seq![item]);
                    match props_from(ps@, i + 1) {
                        Ok(rest) => {
                            assert(props_view(out@) + rest =~= props_view(old_out) + (seq![item]
                                + rest));
                        },
                        Err(_) => {},
                    }
                }
            },
            Err(e) => {
                return Err(e);
            },
        }
        i = i + 1;
    }
    assert(props_view(out@) + Seq::<(Seq<char>, PrimitiveV)>::empty() =~= props_view(out@));
    Ok(out)
}

fn required_declared(
    required: &Vec<String>,
    props: &Vec<(String, LexiconPrimitive)>,
) -> (r: bool)
    ensures
        r == names_declared(strings_view(required@), props_view(props@)),
{
    let ghost rv = strings_view(required@);
    let ghost pv = props_view(props@);
    assert(rv.len() == required@.len());
    let mut i: usize = 0;
    while i < required.len()
        invariant
            i <= required@.len(),
            rv.len() == required@.len(),
            rv == strings_view(required@),
            pv == props_view(props@),
            forall|a: int| 0 <= a < i ==> declared(#[trigger] rv[a], pv),
        decreases required@.len() - i,
    {
        let mut k: usize = 0;
        let mut found = false;
        while k < props.len() && !found
            invariant
                k <= props@.len(),
                pv == props_view(props@),
                found ==> declared(rv[i as int], pv),
                !found ==> forall|m: int| 0 <= m < k ==> (#[trigger] pv[m]).0 != rv[i as int],
                rv == strings_view(required@),
                rv.len() == required@.len(),
                i < required@.len(),
                forall|a: int| 0 <= a < i ==> declared(#[trigger] rv[a], pv),
            decreases props@.len() - k + (if found { 0int } else { 1int }),
        {
            if props[k].0 == required[i] {
                assert(pv[k as int].0 == rv[i as int]);
                found = true;
            } else {
                assert(pv[k as int].0 != rv[i as int]);
                k = k + 1;
            }
        }
        if !found {
            proof {
                assert(pv.len() == props@.len());
                if names_declared(rv, pv) {
                    assert(declared(rv[i as int], pv));
                    let m = choose|m: int|
                        0 <= m < pv.len() && (#[trigger] pv[m]).0 == rv[i as int];
                    assert(pv[m].0 != rv[i as int]);
                }
            }
            return false;
        }
        i = i + 1;
    }
    true
}

fn object_from_members(fs: &Vec<(String, Json)>) -> (r: Result<LexiconObject, Option<String>>)
    ensures
        match r {
            Ok(o) => object_of(fs@) == Ok::<ObjectV, Option<Seq<char>>>(o@),
            Err(e) => object_of(fs@) == Err::<ObjectV, Option<Seq<char>>>(opt_view(e)),
        },
{
    match get_field(fs, "properties") {
        Some(Json::Object(ps)) => match props_from_json(ps) {
            Err(e) => Err(e),
            Ok(props) => match get_present(fs, "required") {
                None => {
                    let required: Vec<String> = Vec::new();
                    assert(strings_view(required@) =~= Seq::<Seq<char>>::empty());
                    Ok(LexiconObject { required, properties: props })
                },
                Some(Json::Array(xs)) => match strings_from_json(xs) {
                    Ok(required) => {
                        if required_declared(&required, &props) {
                            Ok(LexiconObject { required, properties: props })
                        } else {
                            Err(None)
                        }
                    },
                    Err(e) => Err(e),
                },
                Some(_) => Err(None),
            },
        },
        _ => Err(None),
    }
}

fn object_from_member(j: Option<&Json>) -> (r: Result<LexiconObject, Option<String>>)
    ensures
        match r {
            Ok(o) => object_member_of(
                match j {
                    Some(x) => Some(*x),
                    None => None,
                },
            ) == Ok::<ObjectV, Option<Seq<char>>>(o@),
            Err(e) => object_member_of(
                match j {
                    Some(x) => Some(*x),
                    None => None,
                },
            ) == Err::<ObjectV, Option<Seq<char>>>(opt_view(e)),
        },
{
    match j {
        Some(Json::Object(fs)) => object_from_members(fs),
        _ => Err(None),
    }
}

fn record_from_members(fs: &Vec<(String, Json)>) -> (r: Result<LexiconRecord, Option<String>>)
    ensures
        match r {
            Ok(o) => record_of(fs@) == Ok::<RecordV, Option<Seq<char>>>(o@),
            Err(e) => record_of(fs@) == Err::<RecordV, Option<Seq<char>>>(opt_view(e)),
        },
{
    match opt_string_member(fs, "key") {
        Err(e) => Err(e),
        Ok(key) => match object_from_member(get_field(fs, "record")) {
            Ok(record) => Ok(LexiconRecord { key, record }),
            Err(e) => Err(e),
        },
    }
}

fn params_from_json(j: &Json) -> (r: Result<XrpcParameters, Option<String>>)
    ensures
        match r {
            Ok(p) => params_of(*j) == Ok::<ParametersV, Option<Seq<char>>>(p@),
            Err(e) => params_of(*j) == Err::<ParametersV, Option<Seq<char>>>(opt_view(e)),
        },
{
    match j {
        Json::Object(fs) => match string_member(fs, "type") {
            Err(e) => Err(e),
            Ok(typ) => match get_field(fs, "properties") {
                Some(Json::Object(ps)) => match props_from_json(ps) {
                    Ok(properties) => Ok(XrpcParameters { typ, properties }),
                    Err(e) => Err(e),
                },
                _ => Err(None),
            },
        },
        _ => Err(None),
    }
}

fn body_from_json(j: &Json) -> (r: Result<XrpcBody, Option<String>>)
    ensures
        match r {
            Ok(b) => body_of(*j) == Ok::<BodyV, Option<Seq<char>>>(b@),
            Err(e) => body_of(*j) == Err::<BodyV, Option<Seq<char>>>(opt_view(e)),
        },
{
    match j {
        Json::Object(fs) => match string_member(fs, "encoding") {
            Err(e) => Err(e),
            Ok(encoding) => match object_from_member(get_field(fs, "schema")) {
                Ok(schema) => Ok(XrpcBody { encoding, schema }),
                Err(e) => Err(e),
            },
        },
        _ => Err(None),
    }
}

fn error_from_json(j: &Json) -> (r: Result<XrpcError, Option<String>>)
    ensures
        match r {
            Ok(x) => error_of(*j) == Ok::<ErrorV, Option<Seq<char>>>(x@),
            Err(e) => error_of(*j) == Err::<ErrorV, Option<Seq<char>>>(opt_view(e)),
        },
{
    match j {
        Json::Object(fs) => match string_member(fs, "name") {
            Err(e) => Err(e),
            Ok(name) => match opt_string_member(fs, "description") {
                Ok(description) => Ok(XrpcError { name, description }),
                Err(e) => Err(e),
            },
        },
        _ => Err(None),
    }
}

fn errors_from_json(xs: &Vec<Json>) -> (r: Result<Vec<XrpcError>, Option<String>>)
    ensures
        match r {
            Ok(v) => errors_from(xs@, 0) == Ok::<Seq<ErrorV>, Option<Seq<char>>>(
                v@.map_values(|e: XrpcError| e@),
            ),
            Err(e) => errors_from(xs@, 0) == Err::<Seq<ErrorV>, Option<Seq<char>>>(opt_view(e)),
        },
{
    let mut out: Vec<XrpcError> = Vec::new();
    let mut i: usize = 0;
    while i < xs.len()
        invariant
            i <= xs@.len(),
            errors_from(xs@, 0) == match errors_from(xs@, i as int) {
                Ok(rest) => Ok(out@.map_values(|e: XrpcError| e@) + rest),
                Err(e) => Err(e),
            },
        decreases xs@.len() - i,
    {
        match error_from_json(&xs[i]) {
            Ok(x) => {
                let ghost old_out = out@;
                let ghost item = x@;
                out.push(x);
                proof {
                    assert(out@.map_values(|e: XrpcError| e@) =~= old_out.map_values(
                        |e: XrpcError| e@,
                    ) + seq![item]);
                    match errors_from(xs@, i + 1) {
                        Ok(rest) => {
                            assert(out@.map_values(|e: XrpcError| e@) + rest =~= old_out.map_values(
                                |e: XrpcError| e@,
                            ) + (seq![item] + rest));
                        },
                        Err(_) => {},
                    }
                }
            },
            Err(e) => {
                return Err(e);
            },
        }
        i = i + 1;
    }
    assert(out@.map_values(|e: XrpcError| e@) + Seq::<ErrorV>::empty() =~= out@.map_values(
        |e: XrpcError| e@,
    ));
    Ok(out)
}

fn queryproc_from_members(fs: &Vec<(String, Json)>) -> (r: Result<
    LexiconXrpcQueryProc,
    Option<String>,
>)
    ensures
        match r {
            Ok(q) => queryproc_of(fs@) == Ok::<QueryProcV, Option<Seq<char>>>(q@),
            Err(e) => queryproc_of(fs@) == Err::<QueryProcV, Option<Seq<char>>>(opt_view(e)),
        },
{
    let parameters = match get_present(fs, "parameters") {
        None => None,
        Some(j) => match params_from_json(j) {
            Ok(p) => Some(p),
            Err(e) => {
                return Err(e);
            },
        },
    };
    let input = match get_present(fs, "input") {
        None => None,
        Some(j) => match body_from_json(j) {
            Ok(b) => Some(b),
            Err(e) => {
                return Err(e);
            },
        },
    };
    let output = match get_present(fs, "output") {
        None => None,
        Some(j) => match body_from_json(j) {
            Ok(b) => Some(b),
            Err(e) => {
                return Err(e);
            },
        },
    };
    let errors = match get_present(fs, "errors") {
        None => {
            let v: Vec<XrpcError> = Vec::new();
            assert(v@.map_values(|e: XrpcError| e@) =~= Seq::<ErrorV>::empty());
            v
        },
        Some(Json::Array(xs)) => match errors_from_json(xs) {
            Ok(v) => v,
            Err(e) => {
                return Err(e);
            },
        },
        Some(_) => {
            return Err(None);
        },
    };
    Ok(LexiconXrpcQueryProc { parameters, input, output, errors })
}

fn typ_from_members(fs: &Vec<(String, Json)>, t: &str) -> (r: Result<LexiconType, Option<String>>)
    ensures
        match r {
            Ok(ty) => typ_of(fs@, t@) == Ok::<TypeV, Option<Seq<char>>>(ty@),
            Err(e) => typ_of(fs@, t@) == Err::<TypeV, Option<Seq<char>>>(opt_view(e)),
        },
{
    if str_eq(t, "token") {
        Ok(LexiconType::Token)
    } else if str_eq(t, "object") {
        match object_from_members(fs) {
            Ok(inner) => Ok(LexiconType::Object { inner }),
            Err(e) => Err(e),
        }
    } else if str_eq(t, "record") {
        match record_from_members(fs) {
            Ok(inner) => Ok(LexiconType::Record { inner }),
            Err(e) => Err(e),
        }
    } else if str_eq(t, "query") {
        match queryproc_from_members(fs) {
            Ok(inner) => Ok(LexiconType::Query { inner }),
            Err(e) => Err(e),
        }
    } else if str_eq(t, "procedure") {
        match queryproc_from_members(fs) {
            Ok(inner) => Ok(LexiconType::Procedure { inner }),
            Err(e) => Err(e),
        }
    } else if str_eq(t, "blob") {
        Ok(LexiconType::Blob)
    } else if str_eq(t, "image") {
        Ok(LexiconType::Image)
    } else if str_eq(t, "video") {
        Ok(LexiconType::Video)
    } else if str_eq(t, "audio") {
        Ok(LexiconType::Audio)
    } else {
        Err(Some(t.to_owned()))
    }
}

fn revision_from_member(fs: &Vec<(String, Json)>) -> (r: Result<Option<i32>, Option<String>>)
    ensures
        match r {
            Ok(v) => revision_of(present(fs@, "revision"@)) == Ok::<Option<i32>, Option<Seq<char>>>(
                v,
            ),
            Err(e) => revision_of(present(fs@, "revision"@)) == Err::<
                Option<i32>,
                Option<Seq<char>>,
            >(opt_view(e)),
        },
{
    match get_present(fs, "revision") {
        None => Ok(None),
        Some(Json::Number(Some(n))) => {
            if i32::MIN as i64 <= *n && *n <= i32::MAX as i64 {
                Ok(Some(*n as i32))
            } else {
                Err(None)
            }
        },
        Some(_) => Err(None),
    }
}

impl Lexicon {
    /// Decodes one definition and gives it the identifier `id`. Fails with
    /// `UnknownVariant` on a type tag outside the known set and with
    /// `SchemaMismatch` on a missing or ill-typed member.
    pub fn from_json(def: &Json, id: String) -> (r: Result<Lexicon, LoadError>)
        ensures
            r is Ok <==> lexicon_of(*def, id@) is Ok,
            match r {
                Ok(l) => lexicon_of(*def, id@) == Ok::<LexiconV, Option<Seq<char>>>(l@),
                Err(e) => e@ == fault_error(lexicon_of(*def, id@)->Err_0, id@),
            },
    {
        match def {
            Json::Object(fs) => match get_field(fs, "type") {
                Some(Json::Str(t)) => match typ_from_members(fs, t.as_str()) {
                    Err(f) => Err(Self::fault(f, id)),
                    Ok(typ) => match revision_from_member(fs) {
                        Err(f) => Err(Self::fault(f, id)),
                        Ok(revision) => match opt_string_member(fs, "description") {
                            Err(f) => Err(Self::fault(f, id)),
                            Ok(description) => Ok(Lexicon { id, revision, description, typ }),
                        },
                    },
                },
                _ => Err(LoadError::SchemaMismatch { id }),
            },
            _ => Err(LoadError::SchemaMismatch { id }),
        }
    }

    fn fault(f: Option<String>, id: String) -> (e: LoadError)
        ensures
            e@ == fault_error(opt_view(f), id@),
    {
        match f {
            Some(tag) => LoadError::UnknownVariant { id, tag },
            None => LoadError::SchemaMismatch { id },
        }
    }
}

/// A definition whose type tag is outside the known set fails with that
/// tag; it is never read as some default variant.
pub proof fn law_unknown_tag(fs: Vec<(String, Json)>, t: String, id: Seq<char>)
    requires
        field(fs@, "type"@) == Some(Json::Str(t)),
        t@ != "token"@ && t@ != "object"@ && t@ != "record"@ && t@ != "query"@,
        t@ != "procedure"@ && t@ != "blob"@ && t@ != "image"@,
        t@ != "video"@ && t@ != "audio"@,
    ensures
        lexicon_of(Json::Object(fs), id) == Err::<LexiconV, Option<Seq<char>>>(Some(t@)),
{
}

} // verus!
