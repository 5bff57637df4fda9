//! Command-line settings of the server that are parsed rather than read.
use vstd::prelude::*;

use crate::text::{split_str, split_text, string_views};

verus! {

/// One `name=path` entry of the custom static paths: the text before the
/// first `=` and the text between it and the next `=` (or the end); `None`
/// when the entry has no `=`.
pub open spec fn static_entry(entry: Seq<char>) -> Option<(Seq<char>, Seq<char>)> {
    let parts = split_text(entry, '=');
    if parts.len() >= 2 {
        Some((parts[0], parts[1]))
    } else {
        None
    }
}

/// The views of a list of name/path pairs.
pub open spec fn pair_views(v: Seq<(String, String)>) -> Seq<(Seq<char>, Seq<char>)> {
    v.map_values(|p: (String, String)| (p.0@, p.1@))
}

/// Parses the custom static paths `watcher1=/path,watcher2=/path2` into
/// name/path pairs, in order. `None` when an entry has no `=` (the server
/// refuses to start then).
pub fn parse_custom_static(s: &str) -> (r: Option<Vec<(String, String)>>)
    ensures
        ({
            let entries = split_text(s@, ',');
            match r {
                Some(v) => {
                    &&& v@.len() == entries.len()
                    &&& forall|i: int|
                        0 <= i < entries.len() ==> static_entry(#[trigger] entries[i]) == Some(
                            pair_views(v@)[i],
                        )
                },
                None => exists|i: int| 0 <= i < entries.len() && static_entry(#[trigger] entries[i]) is None,
            }
        }),
{
    let entries = split_str(s, ',');
    let ghost ev = split_text(s@, ',');
    let mut out: Vec<(String, String)> = Vec::new();
    let mut i: usize = 0;
    while i < entries.len()
        invariant
            string_views(entries@) == ev,
            ev == split_text(s@, ','),
            i <= entries@.len(),
            out@.len() == i,
            forall|k: int| 0 <= k < i ==> static_entry(#[trigger] ev[k]) == Some(pair_views(out@)[k]),
        decreases entries@.len() - i,
    {
        assert(ev[i as int] == entries@[i as int]@);
        let parts = split_str(entries[i].as_str(), '=');
        if parts.len() < 2 {
            assert(static_entry(ev[i as int]) is None);
            return None;
        }
        let name = parts[0].clone();
        let path = parts[1].clone();
        let ghost before = out@;
        out.push((name, path));
        proof {
            assert(string_views(parts@)[0] == parts@[0]@);
            assert(string_views(parts@)[1] == parts@[1]@);
            assert(pair_views(out@) =~= pair_views(before).push((name@, path@)));
        }
        i = i + 1;
    }
    Some(out)
}

} // verus!
