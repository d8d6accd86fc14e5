//! A Lexicon document: a base identifier and its named definitions.
use vstd::prelude::*;
use crate::json::{field, find_field, get_field, get_present, json_from_bytes, json_of_bytes, present, str_eq, Json};
use crate::loader::{fault_error, lexicon_of, LoadError, LoadErrorV};
use crate::model::{opt_view, Lexicon, LexiconV};

verus! {

/// No two members share a key.
pub open spec fn keys_unique(fs: Seq<(String, Json)>) -> bool {
    forall|a: int, b: int| 0 <= a < b < fs.len() ==> fs[a].0@ != fs[b].0@
}

/// The identifier of the definition named `name` in a document whose base
/// identifier is `base`: `main` stands for the base itself, and any other
/// name is appended to it as it is.
pub open spec fn qualified(base: Seq<char>, name: Seq<char>) -> Seq<char> {
    if name == "main"@ {
        base
    } else {
        base + name
    }
}

/// The envelope of a document: its format version, base identifier,
/// description and definitions; `None` when one of them is missing or of the
/// wrong kind, or when the definitions are empty or repeat a name.
pub open spec fn envelope_of(j: Json) -> Option<
    (i32, Seq<char>, Option<Seq<char>>, Seq<(String, Json)>),
> {
    match j {
        Json::Object(fs) => match (
            field(fs@, "lexicon"@),
            field(fs@, "id"@),
            present(fs@, "description"@),
            field(fs@, "defs"@),
        ) {
            (Some(Json::Number(Some(v))), Some(Json::Str(id)), desc, Some(Json::Object(ds))) => {
                if i32::MIN <= v <= i32::MAX && ds@.len() > 0 && keys_unique(ds@) {
                    match desc {
                        None => Some((v as i32, id@, None, ds@)),
                        Some(Json::Str(s)) => Some((v as i32, id@, Some(s@), ds@)),
                        Some(_) => None,
                    }
                } else {
                    None
                }
            },
            _ => None,
        },
        _ => None,
    }
}

/// The definitions of `defs` from index `i` on, each decoded under its
/// qualified identifier; the first that fails decides the error.
pub open spec fn expand_from(base: Seq<char>, defs: Seq<(String, Json)>, i: int) -> Result<
    Seq<LexiconV>,
    LoadErrorV,
>
    decreases defs.len() - i,
{
    if i < 0 || i >= defs.len() {
        Ok(Seq::empty())
    } else {
        let id = qualified(base, defs[i].0@);
        match lexicon_of(defs[i].1, id) {
            Err(f) => Err(fault_error(f, id)),
            Ok(l) => match expand_from(base, defs, i + 1) {
                Ok(rest) => Ok(seq![l] + rest),
                Err(e) => Err(e),
            },
        }
    }
}

/// A parsed document, before its definitions are decoded.
#[derive(Debug)]
pub struct LexiconDoc {
    lexicon: i32,
    id: String,
    description: Option<String>,
    defs: Vec<(String, Json)>,
}

impl LexiconDoc {
    pub closed spec fn version(&self) -> i32 {
        self.lexicon
    }

    pub closed spec fn base_id(&self) -> Seq<char> {
        self.id@
    }

    pub closed spec fn description_view(&self) -> Option<Seq<char>> {
        opt_view(self.description)
    }

    pub closed spec fn defs(&self) -> Seq<(String, Json)> {
        self.defs@
    }

    /// At least one definition, and no name twice.
    pub open spec fn wf(&self) -> bool {
        self.defs().len() > 0 && keys_unique(self.defs())
    }

    /// The decoded definitions of this document, in order.
    pub open spec fn expansion(&self) -> Result<Seq<LexiconV>, LoadErrorV> {
        expand_from(self.base_id(), self.defs(), 0)
    }

    /// Reads a document from the tree of one JSON value. Fails with
    /// `MalformedDocument` exactly when the envelope is not there.
    pub fn from_json(j: Json) -> (r: Result<LexiconDoc, LoadError>)
        ensures
            r is Ok <==> envelope_of(j) is Some,
            match r {
                Ok(d) => d.wf() && envelope_of(j) == Some(
                    (d.version(), d.base_id(), d.description_view(), d.defs()),
                ),
                Err(e) => e@ == LoadErrorV::MalformedDocument,
            },
    {
        let ghost j0 = j;
        match j {
            Json::Object(mut fs) => {
                let lexicon = match get_field(&fs, "lexicon") {
                    Some(Json::Number(Some(v))) => {
                        if i32::MIN as i64 <= *v && *v <= i32::MAX as i64 {
                            *v as i32
                        } else {
                            return Err(LoadError::MalformedDocument);
                        }
                    },
                    _ => {
                        return Err(LoadError::MalformedDocument);
                    },
                };
                let id = match get_field(&fs, "id") {
                    Some(Json::Str(s)) => s.clone(),
                    _ => {
                        return Err(LoadError::MalformedDocument);
                    },
                };
                let description = match get_present(&fs, "description") {
                    None => None,
                    Some(Json::Str(s)) => Some(s.clone()),
                    Some(_) => {
                        return Err(LoadError::MalformedDocument);
                    },
                };
                let k = match find_field(&fs, "defs") {
                    Some(k) => k,
                    None => {
                        return Err(LoadError::MalformedDocument);
                    },
                };
                let ghost fs0 = fs@;
                let entry = fs.remove(k);
                assert(entry == fs0[k as int]);
                match entry.1 {
                    Json::Object(defs) => {
                        if defs.len() == 0 || !names_unique(&defs) {
                            return Err(LoadError::MalformedDocument);
                        }
                        Ok(LexiconDoc { lexicon, id, description, defs })
                    },
                    _ => Err(LoadError::MalformedDocument),
                }
            },
            _ => Err(LoadError::MalformedDocument),
        }
    }

    /// Reads a document from the bytes of a JSON text. Fails with
    /// `MalformedDocument` when the text is not JSON or lacks the envelope.
    pub fn parse(bytes: &[u8]) -> (r: Result<LexiconDoc, LoadError>)
        ensures
            r is Ok <==> (json_of_bytes(bytes@) is Some && envelope_of(
                json_of_bytes(bytes@)->Some_0,
            ) is Some),
            match r {
                Ok(d) => d.wf() && envelope_of(json_of_bytes(bytes@)->Some_0) == Some(
                    (d.version(), d.base_id(), d.description_view(), d.defs()),
                ),
                Err(e) => e@ == LoadErrorV::MalformedDocument,
            },
    {
        match json_from_bytes(bytes) {
            Some(j) => LexiconDoc::from_json(j),
            None => Err(LoadError::MalformedDocument),
        }
    }

    /// Decodes every definition, in order, each under its qualified
    /// identifier. The first definition that fails decides the error.
    pub fn lexicons(&self) -> (r: Result<Vec<Lexicon>, LoadError>)
        ensures
            r is Ok <==> self.expansion() is Ok,
            match r {
                Ok(v) => self.expansion() == Ok::<Seq<LexiconV>, LoadErrorV>(
                    v@.map_values(|l: Lexicon| l@),
                ),
                Err(e) => self.expansion() == Err::<Seq<LexiconV>, LoadErrorV>(e@),
            },
    {
        let mut out: Vec<Lexicon> = Vec::new();
        let mut i: usize = 0;
        let ghost base = self.base_id();
        let ghost defs = self.defs();
        while i < self.defs.len()
            invariant
                i <= defs.len(),
                base == self.id@,
                defs == self.defs@,
                expand_from(base, defs, 0) == match expand_from(base, defs, i as int) {
                    Ok(rest) => Ok(out@.map_values(|l: Lexicon| l@) + rest),
                    Err(e) => Err(e),
                },
            decreases defs.len() - i,
        {
            let name = &self.defs[i].0;
            let mut id = self.id.clone();
            if !str_eq(name.as_str(), "main") {
                id.append(name.as_str());
            }
            assert(id@ == qualified(base, defs[i as int].0@));
            match Lexicon::from_json(&self.defs[i].1, id) {
                Ok(l) => {
                    let ghost old_out = out@;
                    let ghost item = l@;
                    out.push(l);
                    proof {
                        assert(out@.map_values(|l: Lexicon| l@) =~= old_out.map_values(
                            |l: Lexicon| l@,
                        ) + seq![item]);
                        match expand_from(base, defs, i + 1) {
                            Ok(rest) => {
                                assert(out@.map_values(|l: Lexicon| l@) + rest
                                    =~= old_out.map_values(|l: Lexicon| l@) + (seq![item]
                                    + rest));
                            },
                            Err(_) => {},
                        }
                    }
                },
                Err(e) => {
                    return Err(e);
                },
            }
            i = i + 1;
        }
        assert(out@.map_values(|l: Lexicon| l@) + Seq::<LexiconV>::empty() =~= out@.map_values(
            |l: Lexicon| l@,
        ));
        Ok(out)
    }
}

/// Whether no two members share a key.
fn names_unique(fs: &Vec<(String, Json)>) -> (r: bool)
    ensures
        r == keys_unique(fs@),
{
    let mut b: usize = 0;
    while b < fs.len()
        invariant
            b <= fs@.len(),
            forall|x: int, y: int| 0 <= x < y < b ==> fs@[x].0@ != fs@[y].0@,
        decreases fs@.len() - b,
    {
        let mut a: usize = 0;
        while a < b
            invariant
                a <= b < fs@.len(),
                forall|x: int, y: int| 0 <= x < y < b ==> fs@[x].0@ != fs@[y].0@,
                forall|x: int| 0 <= x < a ==> fs@[x].0@ != fs@[b as int].0@,
            decreases b - a,
        {
            if str_eq(fs[a].0.as_str(), fs[b].0.as_str()) {
                return false;
            }
            a = a + 1;
        }
        b = b + 1;
    }
    true
}

proof fn lemma_expand_from(base: Seq<char>, defs: Seq<(String, Json)>, i: int)
    requires
        0 <= i <= defs.len(),
        expand_from(base, defs, i) is Ok,
    ensures
        expand_from(base, defs, i)->Ok_0.len() == defs.len() - i,
        forall|k: int|
            0 <= k < defs.len() - i ==> (#[trigger] expand_from(base, defs, i)->Ok_0[k]).id
                == qualified(base, defs[i + k].0@),
    decreases defs.len() - i,
{
    if i < defs.len() {
        lemma_expand_from(base, defs, i + 1);
        let id = qualified(base, defs[i].0@);
        let l = lexicon_of(defs[i].1, id)->Ok_0;
        assert(lexicon_of(defs[i].1, id) is Ok);
        let rest = expand_from(base, defs, i + 1)->Ok_0;
        assert(expand_from(base, defs, i)->Ok_0 == seq![l] + rest);
        assert(l.id == id);
        assert forall|k: int| 0 <= k < defs.len() - i implies (#[trigger] expand_from(
            base,
            defs,
            i,
        )->Ok_0[k]).id == qualified(base, defs[i + k].0@) by {
            if k > 0 {
                assert(expand_from(base, defs, i)->Ok_0[k] == rest[k - 1]);
            }
        }
    }
}

/// Expanding a document gives one definition per entry of `defs`, and when
/// an entry is named `main`, exactly one of them carries the document's own
/// identifier. An entry with the empty name would carry it as well, since
/// other names are appended to the base identifier as they are; such
/// documents are left out.
pub proof fn law_expand_counts(d: LexiconDoc)
    requires
        d.wf(),
        d.expansion() is Ok,
        forall|k: int| 0 <= k < d.defs().len() ==> (#[trigger] d.defs()[k]).0@.len() > 0,
    ensures
        d.expansion()->Ok_0.len() == d.defs().len(),
        (exists|k: int| 0 <= k < d.defs().len() && (#[trigger] d.defs()[k]).0@ == "main"@) ==> (
        exists|k: int|
            0 <= k < d.defs().len() && (#[trigger] d.expansion()->Ok_0[k]).id == d.base_id()
                && forall|m: int|
                0 <= m < d.defs().len() && (#[trigger] d.expansion()->Ok_0[m]).id == d.base_id()
                    ==> m == k),
{
    let base = d.base_id();
    let defs = d.defs();
    lemma_expand_from(base, defs, 0);
    let ls = d.expansion()->Ok_0;
    if exists|k: int| 0 <= k < defs.len() && (#[trigger] defs[k]).0@ == "main"@ {
        let k = choose|k: int| 0 <= k < defs.len() && (#[trigger] defs[k]).0@ == "main"@;
        assert(ls[k].id == qualified(base, defs[0 + k].0@));
        assert forall|m: int| 0 <= m < defs.len() && (#[trigger] ls[m]).id == base implies m
            == k by {
            assert(ls[m].id == qualified(base, defs[0 + m].0@));
            if defs[m].0@ != "main"@ {
                assert((base + defs[m].0@).len() == base.len() + defs[m].0@.len());
                assert(defs[m].0@.len() > 0);
            } else if m != k {
                if m < k {
                    assert(defs[m].0@ != defs[k].0@);
                } else {
                    assert(defs[k].0@ != defs[m].0@);
                }
            }
        }
    }
}

} // verus!
