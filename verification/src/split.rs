//! Splitting text at a delimiter character.
//!
//! `split_on` is the mathematical splitting function; `split_fields` is the
//! verified executable counterpart. Splitting yields one more field than
//! there are delimiter occurrences, in order, with empty fields kept.

use vstd::prelude::*;
use vstd::string::*;

verus! {

/// The fields of `s` cut at every occurrence of the delimiter `d`.
pub open spec fn split_on(s: Seq<char>, d: char) -> Seq<Seq<char>>
    decreases s.len(),
{
    if s.len() == 0 {
        seq![Seq::<char>::empty()]
    } else {
        let prior = split_on(s.drop_last(), d);
        if s.last() == d {
            prior.push(Seq::<char>::empty())
        } else {
            prior.update(prior.len() - 1, prior.last().push(s.last()))
        }
    }
}

/// Splitting always yields at least one field.
pub proof fn lemma_split_on_nonempty(s: Seq<char>, d: char)
    ensures
        split_on(s, d).len() >= 1,
    decreases s.len(),
{
    if s.len() == 0 {
    } else {
        lemma_split_on_nonempty(s.drop_last(), d);
    }
}

/// The views of a sequence of owned strings.
pub open spec fn str_views(ss: Seq<String>) -> Seq<Seq<char>> {
    ss.map_values(|t: String| t@)
}

/// Cuts `s` at every occurrence of `d`, keeping empty fields.
pub fn split_fields(s: &str, d: char) -> (fields: Vec<String>)
    ensures
        str_views(fields@) == split_on(s@, d),
{
    let n: usize = s.unicode_len();
    let mut fields: Vec<String> = Vec::new();
    let mut start: usize = 0;
    let mut i: usize = 0;
    proof {
        assert(s@.take(0) =~= Seq::<char>::empty());
        assert(s@.subrange(0, 0) =~= Seq::<char>::empty());
        assert(str_views(fields@) =~= Seq::<Seq<char>>::empty());
        assert(split_on(s@.take(0), d) =~~= str_views(fields@).push(s@.subrange(0, 0)));
    }
    while i < n
        invariant
            n == s@.len(),
            0 <= start <= i <= n,
            split_on(s@.take(i as int), d) == str_views(fields@).push(
                s@.subrange(start as int, i as int),
            ),
        decreases n - i,
    {
        let c = s.get_char(i);
        let ghost whole = s@.take(i + 1 as int);
        proof {
            assert(whole.drop_last() =~= s@.take(i as int));
            assert(whole.last() == s@[i as int]);
            lemma_split_on_nonempty(whole.drop_last(), d);
        }
        if c == d {
            let f = s.substring_char(start, i).to_owned();
            fields.push(f);
            proof {
                assert(str_views(fields@) =~~= split_on(s@.take(i as int), d));
                assert(s@.subrange(i + 1 as int, i + 1 as int) =~= Seq::<char>::empty());
                assert(split_on(whole, d) =~~= str_views(fields@).push(
                    s@.subrange(i + 1 as int, i + 1 as int),
                ));
            }
            start = i + 1;
        } else {
            proof {
                let prior = split_on(s@.take(i as int), d);
                assert(prior.last() == s@.subrange(start as int, i as int));
                assert(prior.last().push(s@[i as int]) =~= s@.subrange(start as int, i + 1 as int));
                assert(split_on(whole, d) =~~= str_views(fields@).push(
                    s@.subrange(start as int, i + 1 as int),
                ));
            }
        }
        i += 1;
    }
    proof {
        assert(s@.take(n as int) =~= s@);
    }
    let f = s.substring_char(start, n).to_owned();
    fields.push(f);
    proof {
        assert(str_views(fields@) =~~= split_on(s@, d));
    }
    fields
}

} // verus!
