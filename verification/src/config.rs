//! Settings of the service that the library has a say in.

use vstd::prelude::*;

verus! {

/// How the service logs: whether to the console, whether as JSON files in a
/// directory, and which filter directives apply.
#[derive(Debug)]
pub struct TracingConfig {
    pub console: bool,
    pub json_directory: Option<String>,
    pub directives: Vec<String>,
}

/// `directives`, separated by commas.
pub open spec fn joined(directives: Seq<String>) -> Seq<char>
    decreases directives.len(),
{
    if directives.len() == 0 {
        Seq::empty()
    } else if directives.len() == 1 {
        directives[0]@
    } else {
        joined(directives.drop_last()) + seq![','] + directives.last()@
    }
}

impl TracingConfig {
    /// The filter that the directives make together: the directives in their
    /// order, separated by commas; empty where there are none.
    pub fn prepare_filter_directives(&self) -> (filter: String)
        ensures
            filter@ == joined(self.directives@),
    {
        let mut filter = String::new();
        let mut i: usize = 0;
        while i < self.directives.len()
            invariant
                0 <= i <= self.directives.len(),
                filter@ == joined(self.directives@.take(i as int)),
            decreases self.directives.len() - i,
        {
            assert(self.directives@.take(i + 1).drop_last() == self.directives@.take(i as int));
            assert(self.directives@.take(i + 1).last() == self.directives@[i as int]);
            if i > 0 {
                filter.append(",");
                proof {
                    reveal_strlit(",");
                    assert(","@ == seq![',']);
                }
            } else {
                assert(Seq::<char>::empty() + self.directives@[0]@ == self.directives@[0]@);
            }
            filter.append(self.directives[i].as_str());
            i += 1;
        }
        assert(self.directives@.take(i as int) == self.directives@);
        filter
    }
}

} // verus!
