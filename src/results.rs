//! The result set a run persists. Nothing in a run records an outcome into it,
//! so it is empty at creation and stays so: the CSV file a run writes has no
//! data rows.
use vstd::prelude::*;

verus! {

/// The rows a run hands to the CSV writer.
pub struct ResultSet {
    rows: Vec<String>,
}

impl ResultSet {
    /// Nothing is ever added: the set is empty in every state.
    #[verifier::type_invariant]
    spec fn stays_empty(&self) -> bool {
        self.rows@.len() == 0
    }

    /// The result set of a new run.
    pub fn new() -> (r: ResultSet)
        ensures
            r.rows().len() == 0,
    {
        ResultSet { rows: Vec::new() }
    }

    /// The rows held, in order.
    pub closed spec fn rows(&self) -> Seq<Seq<char>> {
        self.rows@.map_values(|s: String| s@)
    }

    /// The rows to write, one CSV record each; a result set holds none.
    pub fn to_rows(&self) -> (r: Vec<String>)
        ensures
            r@.map_values(|s: String| s@) == self.rows(),
            r@.len() == 0,
    {
        proof {
            use_type_invariant(self);
        }
        let r: Vec<String> = Vec::new();
        assert(r@.map_values(|s: String| s@) =~= self.rows());
        r
    }
}

} // verus!
