//! Values bound to positional SQL parameters, shared by the recorder's
//! writes and the web reader's queries.

use vstd::prelude::*;

verus! {

/// A value bound to a positional SQL parameter.
#[derive(Debug, Clone, PartialEq, Eq)]
pub enum SqlParam {
    /// A text value.
    Text(String),
    /// An integer value.
    Int(i64),
    /// SQL NULL.
    Null,
}

/// What a parameter holds.
pub enum ParamModel {
    Text(Seq<char>),
    Int(int),
    Null,
}

impl View for SqlParam {
    type V = ParamModel;

    open spec fn view(&self) -> ParamModel {
        match self {
            SqlParam::Text(s) => ParamModel::Text(s@),
            SqlParam::Int(n) => ParamModel::Int(*n as int),
            SqlParam::Null => ParamModel::Null,
        }
    }
}

impl SqlParam {
    /// A copy of the parameter.
    pub fn duplicate(&self) -> (r: SqlParam)
        ensures
            r@ == self@,
    {
        match self {
            SqlParam::Text(t) => SqlParam::Text(t.clone()),
            SqlParam::Int(n) => SqlParam::Int(*n),
            SqlParam::Null => SqlParam::Null,
        }
    }
}

/// A copy of a list of parameters.
pub fn copy_params(v: &Vec<SqlParam>) -> (r: Vec<SqlParam>)
    ensures
        param_views(r@) == param_views(v@),
        r@.len() == v@.len(),
{
    let mut r: Vec<SqlParam> = Vec::new();
    let mut i: usize = 0;
    while i < v.len()
        invariant
            i <= v@.len(),
            r@.len() == i,
            forall|k: int| 0 <= k < i ==> (#[trigger] r@[k])@ == v@[k]@,
        decreases v.len() - i,
    {
        r.push(v[i].duplicate());
        i = i + 1;
    }
    assert(param_views(r@) =~= param_views(v@));
    r
}

/// The views of a list of parameters.
pub open spec fn param_views(v: Seq<SqlParam>) -> Seq<ParamModel> {
    v.map_values(|p: SqlParam| p@)
}

} // verus!
