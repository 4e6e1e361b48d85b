//! The value of one decoded table cell.
use vstd::prelude::*;

verus! {

/// A decoded cell: a string, a boolean, or a list of strings.
#[derive(Debug, Clone)]
pub enum NextcloudTableCell {
    Bool(bool),
    String(String),
    List(Vec<String>),
}

/// Mathematical model of a decoded cell.
pub enum CellModel {
    Bool(bool),
    Str(Seq<char>),
    List(Seq<Seq<char>>),
}

/// The characters of each string of a vector.
pub open spec fn strings_view(v: Seq<String>) -> Seq<Seq<char>> {
    v.map_values(|s: String| s@)
}

impl View for NextcloudTableCell {
    type V = CellModel;

    open spec fn view(&self) -> CellModel {
        match self {
            NextcloudTableCell::Bool(b) => CellModel::Bool(*b),
            NextcloudTableCell::String(s) => CellModel::Str(s@),
            NextcloudTableCell::List(l) => CellModel::List(strings_view(l@)),
        }
    }
}

} // verus!
