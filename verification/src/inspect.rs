//! The mount table inspector: which mount points lie under a partition's
//! root, in the order in which they are restored.

use vstd::prelude::*;
use crate::order::{insert_ascending, strictly_ascending};
use crate::paths::{is_nested, nested_under};
use crate::text::{lemma_take_next, views};

verus! {

/// The mount points of `table` that are strict descendants of `root`, each
/// once, in ascending order. The root itself is left out.
///
/// The order is that of the strings, not that of the tree: `/system/a-b`
/// comes before `/system/a/c`, and a mount point comes before the mount
/// points below it only because it is a prefix of them.
pub fn mounts_under(root: &str, table: &Vec<String>) -> (out: Vec<String>)
    ensures
        strictly_ascending(views(out@)),
        forall|m: Seq<char>|
            #![trigger views(out@).contains(m)]
            #![trigger views(table@).contains(m)]
            views(out@).contains(m) <==> views(table@).contains(m) && nested_under(m, root@),
{
    let mut out: Vec<String> = Vec::new();
    let mut i: usize = 0;
    while i < table.len()
        invariant
            0 <= i <= table.len(),
            strictly_ascending(views(out@)),
            forall|m: Seq<char>|
                #![trigger views(out@).contains(m)]
                #![trigger views(table@).take(i as int).contains(m)]
                views(out@).contains(m) <==> views(table@).take(i as int).contains(m)
                    && nested_under(m, root@),
        decreases table.len() - i,
    {
        let ghost before = views(out@);
        if is_nested(table[i].as_str(), root) {
            insert_ascending(&mut out, table[i].as_str());
        }
        proof {
            lemma_take_next(views(table@), i as int);
            assert forall|m: Seq<char>|
                #![trigger views(out@).contains(m)]
                #![trigger views(table@).take(i + 1).contains(m)]
                views(out@).contains(m) <==> views(table@).take(i + 1).contains(m)
                    && nested_under(m, root@) by {
                assert(before.contains(m) <==> views(table@).take(i as int).contains(m)
                    && nested_under(m, root@));
            }
        }
        i += 1;
    }
    proof {
        assert(views(table@).take(i as int) == views(table@));
    }
    out
}

} // verus!
