use vstd::prelude::*;
use vstd::string::StringExecFns;

verus! {

/// A sequence record as the pipeline sees it: an identifier, an optional
/// free-text description, and the raw sequence bytes.
pub struct Record {
    pub id: String,
    pub desc: Option<String>,
    pub seq: Vec<u8>,
}

/// The effective header of a record: the identifier alone, or the
/// identifier and the description joined by one space.  This joined form
/// is what the rule's pattern is matched against and what is rewritten.
pub open spec fn header_of(id: Seq<char>, desc: Option<Seq<char>>) -> Seq<char> {
    match desc {
        Some(d) => id + seq![' '] + d,
        None => id,
    }
}

impl Record {
    pub open spec fn desc_view(&self) -> Option<Seq<char>> {
        match self.desc {
            Some(d) => Some(d@),
            None => None,
        }
    }

    pub open spec fn header_view(&self) -> Seq<char> {
        header_of(self.id@, self.desc_view())
    }

    /// Reconstructs the effective header from the split representation.
    pub fn effective_header(&self) -> (h: String)
        ensures
            h@ == self.header_view(),
    {
        match &self.desc {
            Some(d) => {
                let mut h = self.id.clone();
                h.append(" ");
                h.append(d.as_str());
                proof {
                    reveal_strlit(" ");
                    assert(" "@ =~= seq![' ']);
                    assert(h@ =~= self.header_view());
                }
                h
            },
            None => self.id.clone(),
        }
    }
}

} // verus!
