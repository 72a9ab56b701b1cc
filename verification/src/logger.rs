//! Renderings used in verbose output: lists in brackets and optional values.
use crate::text::{join, joined, owned, texts};
use vstd::prelude::*;

verus! {

/// A list shown as `[a, b, c]`.
pub struct DisplayList<'a>(pub &'a Vec<String>);

impl<'a> DisplayList<'a> {
    /// The list in brackets, its items separated by `, `.
    pub fn to_display_string(&self) -> (res: String)
        ensures
            res@ == "["@ + joined(texts(self.0@), ", "@) + "]"@,
    {
        let mut res = owned("[");
        let inner = join(self.0, ", ");
        res.append(inner.as_str());
        res.append("]");
        res
    }
}

/// An optional value shown as `Some(v)` or `None`.
pub struct Optional(pub Option<String>);

impl Optional {
    /// `Some(v)` around the value, or `None`.
    pub fn to_display_string(&self) -> (res: String)
        ensures
            res@ == match self.0 {
                Some(v) => "Some("@ + v@ + ")"@,
                None => "None"@,
            },
    {
        match &self.0 {
            Some(v) => {
                let mut res = owned("Some(");
                res.append(v.as_str());
                res.append(")");
                res
            },
            None => owned("None"),
        }
    }
}

} // verus!
