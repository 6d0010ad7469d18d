use vstd::prelude::*;

verus! {

/// The value carried by a decoded configuration node.
#[derive(Debug, PartialEq)]
pub enum CfgData {
    Int(i64),
    Bool(bool),
    String(String),
    Array(Vec<Cfg>),
    IpPort(i32),
    /// A single-precision float, held as its IEEE-754 bit pattern.
    Float(u32),
    Object(Vec<Cfg>),
}

/// A decoded configuration node: a key and its value, owned outright.
#[derive(Debug, PartialEq)]
pub struct Cfg {
    pub key: String,
    pub data: CfgData,
}

/// The mathematical model of a node value.
pub enum DataModel {
    Int(i64),
    Bool(bool),
    String(Seq<char>),
    Array(Seq<CfgModel>),
    IpPort(i32),
    Float(u32),
    Object(Seq<CfgModel>),
}

/// The mathematical model of a node.
pub struct CfgModel {
    pub key: Seq<char>,
    pub data: DataModel,
}

/// Stands for an element outside a list's bounds; never part of a model.
pub open spec fn placeholder() -> CfgModel {
    CfgModel { key: Seq::empty(), data: DataModel::Bool(false) }
}

/// The models of a list of nodes, in order.
pub open spec fn models_of(v: Vec<Cfg>) -> Seq<CfgModel>
    decreases v,
{
    Seq::new(
        v.len() as nat,
        |k: int|
            if 0 <= k < v.len() {
                node_model(v[k])
            } else {
                placeholder()
            },
    )
}

/// The model of a node: its key and value as sequences and integers.
pub open spec fn node_model(c: Cfg) -> CfgModel
    decreases c,
{
    CfgModel {
        key: c.key@,
        data: match c.data {
            CfgData::Int(i) => DataModel::Int(i),
            CfgData::Bool(b) => DataModel::Bool(b),
            CfgData::String(s) => DataModel::String(s@),
            CfgData::Array(v) => DataModel::Array(models_of(v)),
            CfgData::IpPort(p) => DataModel::IpPort(p),
            CfgData::Float(f) => DataModel::Float(f),
            CfgData::Object(v) => DataModel::Object(models_of(v)),
        },
    }
}

impl View for Cfg {
    type V = CfgModel;

    open spec fn view(&self) -> CfgModel {
        node_model(*self)
    }
}

/// A metadata record of the engine (a command-line switch or environment
/// binding); its fields are not read.
#[derive(Debug)]
pub struct Meta {}

/// Why a configuration could not be produced.
#[derive(Debug, Clone, Copy, PartialEq, Eq, Structural)]
pub enum Fault {
    /// The configuration engine could not open a session.
    OpenFailed,
    /// A node carries a type tag outside the known set.
    UnknownTag(i32),
    /// A key, a string value or a path is not valid text.
    InvalidText,
    /// A child or sibling reference does not lead forward to another record
    /// of the snapshot, so the records do not form a tree.
    MalformedTree,
}

} // verus!
