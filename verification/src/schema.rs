//! Register records and device schemas.
//!
//! A device schema names three register families: detect registers, whose
//! parsed values must match a literal or a regular expression before a
//! destination is taken for a device of that kind; id registers, whose
//! parsed texts concatenate into the stable device identity; and measurement
//! registers, whose parsed values become measurement rows. Each family
//! exists declaratively (storage is a [`RegisterKind`]) and parsed (storage
//! is a [`RegisterValue`]).

use vstd::prelude::*;

use crate::register::{
    parse_model, parse_value, text_model, wf_kind, RegisterKind, RegisterStorage, RegisterValue,
    ValueModel,
};

verus! {

/// Whether the pattern is accepted by the regex compiler.
pub uninterp spec fn regex_ok(pattern: Seq<char>) -> bool;

/// Whether a match for the pattern occurs anywhere in the text.
pub uninterp spec fn regex_match(pattern: Seq<char>, text: Seq<char>) -> bool;

/// Relies on `regex::Regex::new`: whether a pattern compiles depends on the
/// pattern alone.
#[verifier::external_body]
fn regex_compiles(pattern: &str) -> (r: bool)
    ensures
        r == regex_ok(pattern@),
{
    regex::Regex::new(pattern).is_ok()
}

/// Relies on `regex::Regex::is_match` on a pattern freshly compiled with
/// `regex::Regex::new`: a compiled pattern matches iff a match occurs
/// anywhere in the text; both depend on the two strings alone. An
/// uncompilable pattern matches nothing.
#[verifier::external_body]
fn regex_text_match(pattern: &str, text: &str) -> (r: bool)
    ensures
        r == (regex_ok(pattern@) && regex_match(pattern@, text@)),
{
    match regex::Regex::new(pattern) {
        Ok(re) => re.is_match(text),
        Err(_) => false,
    }
}

/// How a detect register compares parsed text: against a literal, exactly,
/// or against a compiled regular expression.
#[derive(Debug, Clone)]
pub enum MatchSpec {
    Literal(String),
    Pattern(String),
}

pub enum MatchModel {
    Literal(Seq<char>),
    Pattern(Seq<char>),
}

impl View for MatchSpec {
    type V = MatchModel;

    open spec fn view(&self) -> MatchModel {
        match self {
            MatchSpec::Literal(s) => MatchModel::Literal(s@),
            MatchSpec::Pattern(s) => MatchModel::Pattern(s@),
        }
    }
}

/// Whether the matcher accepts a text.
pub open spec fn match_accepts(m: MatchModel, text: Seq<char>) -> bool {
    match m {
        MatchModel::Literal(l) => l == text,
        MatchModel::Pattern(p) => regex_ok(p) && regex_match(p, text),
    }
}

impl MatchSpec {
    /// Compile a match source: a source that the regex compiler accepts
    /// becomes a pattern, any other is kept as a literal.
    pub fn new(source: String) -> (m: MatchSpec)
        ensures
            m@ == if regex_ok(source@) {
                MatchModel::Pattern(source@)
            } else {
                MatchModel::Literal(source@)
            },
    {
        if regex_compiles(source.as_str()) {
            MatchSpec::Pattern(source)
        } else {
            MatchSpec::Literal(source)
        }
    }

    /// Whether this matcher accepts the text.
    pub fn accepts(&self, text: &String) -> (r: bool)
        ensures
            r == match_accepts(self@, text@),
    {
        match self {
            MatchSpec::Literal(l) => *l == *text,
            MatchSpec::Pattern(p) => regex_text_match(p.as_str(), text.as_str()),
        }
    }

    /// An equal matcher; spelled out so that its meaning is carried.
    pub fn duplicate(&self) -> (m: MatchSpec)
        ensures
            m@ == self@,
    {
        match self {
            MatchSpec::Literal(s) => MatchSpec::Literal(s.clone()),
            MatchSpec::Pattern(s) => MatchSpec::Pattern(s.clone()),
        }
    }
}

/// A named register read for measurements.
#[derive(Debug, Clone)]
pub struct MeasurementRegister<T: RegisterStorage> {
    pub address: u16,
    pub storage: T,
    pub name: String,
}

/// A register whose parsed text decides whether a destination is a device of
/// this schema's kind.
#[derive(Debug, Clone)]
pub struct DetectRegister<T: RegisterStorage> {
    pub address: u16,
    pub storage: T,
    pub matcher: MatchSpec,
}

/// A register whose parsed text becomes part of the device identity.
#[derive(Debug, Clone)]
pub struct IdRegister<T: RegisterStorage> {
    pub address: u16,
    pub storage: T,
}

impl MeasurementRegister<RegisterKind> {
    /// Parse one response against this register's kind.
    pub fn parse(&self, data: &Vec<u16>) -> (r: Option<MeasurementRegister<RegisterValue>>)
        requires
            wf_kind(self.storage),
        ensures
            match r {
                Some(p) => parse_model(self.storage, data@) == Some(p.storage@) && p.address
                    == self.address && p.name@ == self.name@,
                None => parse_model(self.storage, data@) is None,
            },
    {
        match parse_value(&self.storage, data) {
            Some(storage) => Some(
                MeasurementRegister { address: self.address, storage, name: self.name.clone() },
            ),
            None => None,
        }
    }
}

impl DetectRegister<RegisterKind> {
    /// Parse one response against this register's kind.
    pub fn parse(&self, data: &Vec<u16>) -> (r: Option<DetectRegister<RegisterValue>>)
        requires
            wf_kind(self.storage),
        ensures
            match r {
                Some(p) => parse_model(self.storage, data@) == Some(p.storage@) && p.address
                    == self.address && p.matcher@ == self.matcher@,
                None => parse_model(self.storage, data@) is None,
            },
    {
        match parse_value(&self.storage, data) {
            Some(storage) => Some(
                DetectRegister { address: self.address, storage, matcher: self.matcher.duplicate() },
            ),
            None => None,
        }
    }
}

impl IdRegister<RegisterKind> {
    /// Parse one response against this register's kind.
    pub fn parse(&self, data: &Vec<u16>) -> (r: Option<IdRegister<RegisterValue>>)
        requires
            wf_kind(self.storage),
        ensures
            match r {
                Some(p) => parse_model(self.storage, data@) == Some(p.storage@) && p.address
                    == self.address,
                None => parse_model(self.storage, data@) is None,
            },
    {
        match parse_value(&self.storage, data) {
            Some(storage) => Some(IdRegister { address: self.address, storage }),
            None => None,
        }
    }
}

/// Whether a parsed detect register's value is accepted by its matcher. A
/// value without a canonical text matches nothing.
pub open spec fn detect_matches(m: MatchModel, v: ValueModel) -> bool {
    match text_model(v) {
        Some(t) => match_accepts(m, t),
        None => false,
    }
}

impl DetectRegister<RegisterValue> {
    /// Whether the parsed value matches. Values of the float kinds have no
    /// canonical text in the library and match nothing.
    pub fn matches(&self) -> (r: bool)
        ensures
            r == detect_matches(self.matcher@, self.storage@),
    {
        match self.storage.render() {
            Some(text) => self.matcher.accepts(&text),
            None => false,
        }
    }
}

impl IdRegister<RegisterValue> {
    /// The canonical text of the parsed id value; values of the float kinds
    /// have none in the library.
    pub fn id(&self) -> (r: Option<String>)
        ensures
            match r {
                Some(s) => text_model(self.storage@) == Some(s@),
                None => text_model(self.storage@) is None,
            },
    {
        self.storage.render()
    }
}

/// The device identity string: the kind, then the text of each id value in
/// declaration order, each prefixed by the delimiter. `None` when some value
/// has no canonical text.
pub open spec fn make_id_model(kind: Seq<char>, vals: Seq<ValueModel>) -> Option<Seq<char>>
    decreases vals.len(),
{
    if vals.len() == 0 {
        Some(kind)
    } else {
        match make_id_model(kind, vals.drop_last()) {
            Some(prefix) => match text_model(vals.last()) {
                Some(t) => Some(prefix + seq!['-'] + t),
                None => None,
            },
            None => None,
        }
    }
}

/// Once a prefix of the id values fails to render, the whole id does.
proof fn lemma_make_id_extend_none(kind: Seq<char>, vals: Seq<ValueModel>, j: int)
    requires
        0 <= j <= vals.len(),
        make_id_model(kind, vals.take(j)) is None,
    ensures
        make_id_model(kind, vals) is None,
    decreases vals.len() - j,
{
    if j < vals.len() {
        assert(vals.take(j + 1).drop_last() =~= vals.take(j));
        lemma_make_id_extend_none(kind, vals, j + 1);
    } else {
        assert(vals.take(j) =~= vals);
    }
}

/// Render the device identity of parsed id registers.
pub fn make_id(kind: &String, ids: &Vec<IdRegister<RegisterValue>>) -> (r: Option<String>)
    ensures
        match r {
            Some(s) => make_id_model(kind@, ids@.map_values(|reg: IdRegister<RegisterValue>| reg.storage@))
                == Some(s@),
            None => make_id_model(kind@, ids@.map_values(|reg: IdRegister<RegisterValue>| reg.storage@))
                is None,
        },
{
    let ghost vals = ids@.map_values(|reg: IdRegister<RegisterValue>| reg.storage@);
    let mut out = kind.clone();
    let mut i: usize = 0;
    while i < ids.len()
        invariant
            i <= ids@.len(),
            vals == ids@.map_values(|reg: IdRegister<RegisterValue>| reg.storage@),
            make_id_model(kind@, vals.take(i as int)) == Some(out@),
        decreases ids@.len() - i,
    {
        match ids[i].id() {
            Some(text) => {
                out.append("-");
                out.append(text.as_str());
                proof {
                    reveal_strlit("-");
                    assert(vals.take(i as int + 1).drop_last() =~= vals.take(i as int));
                    assert(vals.take(i as int + 1).last() == vals[i as int]);
                }
                i = i + 1;
            },
            None => {
                proof {
                    assert(vals.take(i as int + 1).drop_last() =~= vals.take(i as int));
                    assert(make_id_model(kind@, vals.take(i as int + 1)) is None);
                    lemma_make_id_extend_none(kind@, vals, i as int + 1);
                }
                return None;
            },
        }
    }
    proof {
        assert(vals.take(ids@.len() as int) =~= vals);
    }
    Some(out)
}

/// One device kind's schema: its name and its three register families.
///
/// Detect matching and id rendering go through a value's canonical text;
/// values of the float kinds have none here (the library holds no floating
/// point), so a schema whose detect or id registers are float kinds matches
/// no destination and yields no identity.
#[derive(Debug, Clone)]
pub struct DeviceSchema {
    pub kind: String,
    pub detect: Vec<DetectRegister<RegisterKind>>,
    pub id: Vec<IdRegister<RegisterKind>>,
    pub measurement: Vec<MeasurementRegister<RegisterKind>>,
}

pub open spec fn wf_schema(s: DeviceSchema) -> bool {
    &&& forall|i: int| 0 <= i < s.detect@.len() ==> wf_kind(#[trigger] s.detect@[i].storage)
    &&& forall|i: int| 0 <= i < s.id@.len() ==> wf_kind(#[trigger] s.id@[i].storage)
    &&& forall|i: int|
        0 <= i < s.measurement@.len() ==> wf_kind(#[trigger] s.measurement@[i].storage)
}

} // verus!
