use vstd::prelude::*;
use vstd::string::StringExecFns;

verus! {

/// The repository search query: the non-archived repositories of one organisation.
pub struct ListRepositories;

/// The search text that selects the non-archived repositories of `organization`.
pub open spec fn search_text_of(organization: Seq<char>) -> Seq<char> {
    "org:"@ + organization + " archived:false"@
}

impl ListRepositories {
    /// The search text that selects the non-archived repositories of `organization`.
    pub fn search_text(organization: &str) -> (r: String)
        ensures
            r@ == search_text_of(organization@),
    {
        let mut r = String::from_str("org:");
        r.append(organization);
        r.append(" archived:false");
        r
    }
}

} // verus!
