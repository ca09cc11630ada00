//! The version denylist: blocked (game version, plugin version) pairs.
//!
//! The list is loaded once from a line-oriented text source, one pair per
//! line, the two fields separated by `|`. A line that does not split into
//! exactly two fields is skipped; an absent source yields an empty list.

use crate::split::{split_fields, split_on, str_views};
use vstd::prelude::*;
use vstd::string::*;

verus! {

/// A line with its trailing carriage return removed, so that sources with
/// either line ending parse alike.
pub open spec fn strip_cr(l: Seq<char>) -> Seq<char> {
    if l.len() > 0 && l.last() == '\r' {
        l.drop_last()
    } else {
        l
    }
}

/// The pair a single line yields: its two fields when the line splits at `|`
/// into exactly two, nothing otherwise.
pub open spec fn line_pair(l: Seq<char>) -> Option<(Seq<char>, Seq<char>)> {
    let fields = split_on(strip_cr(l), '|');
    if fields.len() == 2 {
        Some((fields[0], fields[1]))
    } else {
        None
    }
}

/// The pairs of a sequence of lines, in source order, lines without a pair
/// skipped.
pub open spec fn pairs_of_lines(lines: Seq<Seq<char>>) -> Seq<(Seq<char>, Seq<char>)>
    decreases lines.len(),
{
    if lines.len() == 0 {
        Seq::empty()
    } else {
        pairs_of_lines(lines.drop_last()) + match line_pair(lines.last()) {
            Some(p) => seq![p],
            None => Seq::<(Seq<char>, Seq<char>)>::empty(),
        }
    }
}

/// The pairs a whole denylist source yields.
pub open spec fn denylist_of(content: Seq<char>) -> Seq<(Seq<char>, Seq<char>)> {
    pairs_of_lines(split_on(content, '\n'))
}

/// The views of a sequence of owned string pairs.
pub open spec fn pair_views(ps: Seq<(String, String)>) -> Seq<(Seq<char>, Seq<char>)> {
    ps.map_values(|p: (String, String)| (p.0@, p.1@))
}

/// The pair `(g, p)` stands somewhere in the list.
pub open spec fn spec_blocked(dl: Seq<(Seq<char>, Seq<char>)>, g: Seq<char>, p: Seq<char>) -> bool {
    exists|i: int| 0 <= i < dl.len() && dl[i] == (g, p)
}

/// The immutable set of blocked version pairs.
pub struct Denylist {
    pub(crate) pairs: Vec<(String, String)>,
}

impl View for Denylist {
    type V = Seq<(Seq<char>, Seq<char>)>;

    closed spec fn view(&self) -> Seq<(Seq<char>, Seq<char>)> {
        pair_views(self.pairs@)
    }
}

impl Denylist {
    /// The loaded pairs, in source order.
    pub fn pairs(&self) -> (r: &Vec<(String, String)>)
        ensures
            pair_views(r@) == self@,
    {
        &self.pairs
    }

    /// True iff the exact pair is on the list: exact string match, no
    /// wildcards, no version ranges.
    pub fn is_blocked(&self, game_version: &String, plugin_version: &String) -> (r: bool)
        ensures
            r == spec_blocked(self@, game_version@, plugin_version@),
    {
        let n: usize = self.pairs.len();
        let mut i: usize = 0;
        while i < n
            invariant
                n == self.pairs@.len(),
                0 <= i <= n,
                forall|j: int| 0 <= j < i ==> self@[j] != (game_version@, plugin_version@),
            decreases n - i,
        {
            let e = &self.pairs[i];
            if e.0 == *game_version && e.1 == *plugin_version {
                proof {
                    assert(self@[i as int] == (game_version@, plugin_version@));
                }
                return true;
            }
            proof {
                assert(self@[i as int] == (self.pairs@[i as int].0@, self.pairs@[i as int].1@));
            }
            i += 1;
        }
        false
    }
}

/// Loads the denylist from the text of its source, or yields the empty list
/// where the source is absent: validation then degrades to blocking nothing.
pub fn load_block_versions(content: Option<&str>) -> (d: Denylist)
    ensures
        match content {
            Some(c) => d@ == denylist_of(c@),
            None => d@ == Seq::<(Seq<char>, Seq<char>)>::empty(),
        },
{
    let mut pairs: Vec<(String, String)> = Vec::new();
    let text = match content {
        Some(c) => c,
        None => {
            proof {
                assert(pair_views(pairs@) =~= Seq::<(Seq<char>, Seq<char>)>::empty());
            }
            return Denylist { pairs };
        },
    };
    let lines = split_fields(text, '\n');
    let ghost line_views = str_views(lines@);
    let n: usize = lines.len();
    let mut i: usize = 0;
    while i < n
        invariant
            n == lines@.len(),
            0 <= i <= n,
            line_views == str_views(lines@),
            pair_views(pairs@) == pairs_of_lines(line_views.take(i as int)),
        decreases n - i,
    {
        let line: &String = &lines[i];
        let m: usize = line.as_str().unicode_len();
        let stripped: String = if m > 0 && line.as_str().get_char(m - 1) == '\r' {
            line.as_str().substring_char(0, m - 1).to_owned()
        } else {
            line.clone()
        };
        proof {
            assert(stripped@ =~= strip_cr(line_views[i as int]));
        }
        let parts = split_fields(stripped.as_str(), '|');
        let ghost taken = line_views.take(i as int + 1);
        proof {
            assert(taken.drop_last() =~= line_views.take(i as int));
            assert(taken.last() == line_views[i as int]);
        }
        if parts.len() == 2 {
            let a: String = parts[0].clone();
            let b: String = parts[1].clone();
            pairs.push((a, b));
            proof {
                assert(str_views(parts@)[0] == parts@[0]@);
                assert(str_views(parts@)[1] == parts@[1]@);
                assert(line_pair(line_views[i as int]) == Some((parts@[0]@, parts@[1]@)));
                assert(pair_views(pairs@) =~~= pairs_of_lines(taken));
            }
        } else {
            proof {
                assert(line_pair(line_views[i as int]) is None);
                assert(pairs_of_lines(taken) =~~= pairs_of_lines(line_views.take(i as int)));
            }
        }
        i += 1;
    }
    proof {
        assert(line_views.take(n as int) =~= line_views);
    }
    Denylist { pairs }
}

} // verus!
