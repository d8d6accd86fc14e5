//! The typed form of a Lexicon definition, and its mathematical view.
use vstd::prelude::*;

verus! {

pub open spec fn opt_view(o: Option<String>) -> Option<Seq<char>> {
    match o {
        Some(s) => Some(s@),
        None => None,
    }
}

pub open spec fn strings_view(v: Seq<String>) -> Seq<Seq<char>> {
    v.map_values(|s: String| s@)
}

/// A leaf field type.
#[derive(Debug)]
pub enum LexiconPrimitive {
    Boolean,
    Number,
    Integer,
    String { enum_values: Option<Vec<String>> },
}

pub enum PrimitiveV {
    Boolean,
    Number,
    Integer,
    String(Option<Seq<Seq<char>>>),
}

impl View for LexiconPrimitive {
    type V = PrimitiveV;

    open spec fn view(&self) -> PrimitiveV {
        match self {
            LexiconPrimitive::Boolean => PrimitiveV::Boolean,
            LexiconPrimitive::Number => PrimitiveV::Number,
            LexiconPrimitive::Integer => PrimitiveV::Integer,
            LexiconPrimitive::String { enum_values } => PrimitiveV::String(
                match enum_values {
                    Some(v) => Some(strings_view(v@)),
                    None => None,
                },
            ),
        }
    }
}

pub open spec fn props_view(v: Seq<(String, LexiconPrimitive)>) -> Seq<(Seq<char>, PrimitiveV)> {
    v.map_values(|p: (String, LexiconPrimitive)| (p.0@, p.1@))
}

/// Named fields, and the names that must be present.
#[derive(Debug)]
pub struct LexiconObject {
    pub required: Vec<String>,
    pub properties: Vec<(String, LexiconPrimitive)>,
}

pub struct ObjectV {
    pub required: Seq<Seq<char>>,
    pub properties: Seq<(Seq<char>, PrimitiveV)>,
}

impl View for LexiconObject {
    type V = ObjectV;

    open spec fn view(&self) -> ObjectV {
        ObjectV { required: strings_view(self.required@), properties: props_view(self.properties@) }
    }
}

/// A stored record: an optional key strategy and the record's body.
#[derive(Debug)]
pub struct LexiconRecord {
    pub key: Option<String>,
    pub record: LexiconObject,
}

pub struct RecordV {
    pub key: Option<Seq<char>>,
    pub record: ObjectV,
}

impl View for LexiconRecord {
    type V = RecordV;

    open spec fn view(&self) -> RecordV {
        RecordV { key: opt_view(self.key), record: self.record@ }
    }
}

/// Query-string parameters of a remote call.
#[derive(Debug)]
pub struct XrpcParameters {
    pub typ: String,
    pub properties: Vec<(String, LexiconPrimitive)>,
}

pub struct ParametersV {
    pub typ: Seq<char>,
    pub properties: Seq<(Seq<char>, PrimitiveV)>,
}

impl View for XrpcParameters {
    type V = ParametersV;

    open spec fn view(&self) -> ParametersV {
        ParametersV { typ: self.typ@, properties: props_view(self.properties@) }
    }
}

/// A request or response body: its encoding and its schema.
#[derive(Debug)]
pub struct XrpcBody {
    pub encoding: String,
    pub schema: LexiconObject,
}

pub struct BodyV {
    pub encoding: Seq<char>,
    pub schema: ObjectV,
}

impl View for XrpcBody {
    type V = BodyV;

    open spec fn view(&self) -> BodyV {
        BodyV { encoding: self.encoding@, schema: self.schema@ }
    }
}

/// A named error that a remote call may return.
#[derive(Debug)]
pub struct XrpcError {
    pub name: String,
    pub description: Option<String>,
}

pub struct ErrorV {
    pub name: Seq<char>,
    pub description: Option<Seq<char>>,
}

impl View for XrpcError {
    type V = ErrorV;

    open spec fn view(&self) -> ErrorV {
        ErrorV { name: self.name@, description: opt_view(self.description) }
    }
}

pub open spec fn opt_parameters_view(o: Option<XrpcParameters>) -> Option<ParametersV> {
    match o {
        Some(p) => Some(p@),
        None => None,
    }
}

pub open spec fn opt_body_view(o: Option<XrpcBody>) -> Option<BodyV> {
    match o {
        Some(b) => Some(b@),
        None => None,
    }
}

/// The shape of a query or a procedure.
#[derive(Debug)]
pub struct LexiconXrpcQueryProc {
    pub parameters: Option<XrpcParameters>,
    pub input: Option<XrpcBody>,
    pub output: Option<XrpcBody>,
    pub errors: Vec<XrpcError>,
}

pub struct QueryProcV {
    pub parameters: Option<ParametersV>,
    pub input: Option<BodyV>,
    pub output: Option<BodyV>,
    pub errors: Seq<ErrorV>,
}

impl View for LexiconXrpcQueryProc {
    type V = QueryProcV;

    open spec fn view(&self) -> QueryProcV {
        QueryProcV {
            parameters: opt_parameters_view(self.parameters),
            input: opt_body_view(self.input),
            output: opt_body_view(self.output),
            errors: self.errors@.map_values(|e: XrpcError| e@),
        }
    }
}

/// What kind of definition a lexicon is.
#[derive(Debug)]
#[allow(inconsistent_fields)]
pub enum LexiconType {
    Token,
    Object { inner: LexiconObject },
    Record { inner: LexiconRecord },
    Query { inner: LexiconXrpcQueryProc },
    Procedure { inner: LexiconXrpcQueryProc },
    Blob,
    Image,
    Video,
    Audio,
}

pub enum TypeV {
    Token,
    Object(ObjectV),
    Record(RecordV),
    Query(QueryProcV),
    Procedure(QueryProcV),
    Blob,
    Image,
    Video,
    Audio,
}

impl View for LexiconType {
    type V = TypeV;

    open spec fn view(&self) -> TypeV {
        match self {
            LexiconType::Token => TypeV::Token,
            LexiconType::Object { inner } => TypeV::Object(inner@),
            LexiconType::Record { inner } => TypeV::Record(inner@),
            LexiconType::Query { inner } => TypeV::Query(inner@),
            LexiconType::Procedure { inner } => TypeV::Procedure(inner@),
            LexiconType::Blob => TypeV::Blob,
            LexiconType::Image => TypeV::Image,
            LexiconType::Video => TypeV::Video,
            LexiconType::Audio => TypeV::Audio,
        }
    }
}

/// One compiled definition.
#[derive(Debug)]
pub struct Lexicon {
    pub id: String,
    pub revision: Option<i32>,
    pub description: Option<String>,
    pub typ: LexiconType,
}

pub struct LexiconV {
    pub id: Seq<char>,
    pub revision: Option<i32>,
    pub description: Option<Seq<char>>,
    pub typ: TypeV,
}

impl View for Lexicon {
    type V = LexiconV;

    open spec fn view(&self) -> LexiconV {
        LexiconV {
            id: self.id@,
            revision: self.revision,
            description: opt_view(self.description),
            typ: self.typ@,
        }
    }
}

} // verus!
