//! The query string of a handshake URI: `&`-separated `key=value` pairs.

use vstd::prelude::*;
use vstd::string::*;
use crate::text::str_eq;

verus! {

/// The pieces of `q` between its `&` characters, as `str::split("&")` gives
/// them: an empty string gives one empty piece.
pub open spec fn split_amp(q: Seq<char>) -> Seq<Seq<char>>
    decreases q.len(),
{
    if q.len() == 0 {
        seq![seq![]]
    } else {
        let init = split_amp(q.drop_last());
        if q.last() == '&' {
            init.push(seq![])
        } else {
            init.update(init.len() - 1, init.last().push(q.last()))
        }
    }
}

/// The position of the first `c` at or after `from`, or the length of `s`.
pub open spec fn scan_to(s: Seq<char>, c: char, from: int) -> int
    decreases s.len() - from,
{
    if 0 <= from < s.len() && s[from] != c {
        scan_to(s, c, from + 1)
    } else {
        from
    }
}

/// One piece as a property: split at its first `=`; a piece without `=` is
/// held under the empty key with the whole piece as its value.
pub open spec fn prop_of(seg: Seq<char>) -> (Seq<char>, Seq<char>) {
    let p = scan_to(seg, '=', 0);
    if p < seg.len() {
        (seg.subrange(0, p), seg.subrange(p + 1, seg.len() as int))
    } else {
        (seq![], seg)
    }
}

/// The properties of a query string, in order.
pub open spec fn query_pairs(q: Seq<char>) -> Seq<(Seq<char>, Seq<char>)> {
    split_amp(q).map_values(|s: Seq<char>| prop_of(s))
}

/// The map of properties after inserting each pair in turn: a later key
/// overwrites an earlier one.
pub open spec fn props_map(pairs: Seq<(Seq<char>, Seq<char>)>) -> Map<Seq<char>, Seq<char>>
    decreases pairs.len(),
{
    if pairs.len() == 0 {
        Map::empty()
    } else {
        props_map(pairs.drop_last()).insert(pairs.last().0, pairs.last().1)
    }
}

pub proof fn lemma_split_amp_nonempty(q: Seq<char>)
    ensures
        split_amp(q).len() >= 1,
    decreases q.len(),
{
    if q.len() > 0 {
        lemma_split_amp_nonempty(q.drop_last());
    }
}

/// Properties parsed from query strings, in the order they were loaded.
pub struct Props {
    entries: Vec<(String, String)>,
}

impl Props {
    pub closed spec fn pairs(&self) -> Seq<(Seq<char>, Seq<char>)> {
        self.entries@.map_values(|e: (String, String)| (e.0@, e.1@))
    }

    pub open spec fn map(&self) -> Map<Seq<char>, Seq<char>> {
        props_map(self.pairs())
    }

    pub fn new() -> (r: Props)
        ensures
            r.pairs() == Seq::<(Seq<char>, Seq<char>)>::empty(),
    {
        let r = Props { entries: Vec::new() };
        assert(r.pairs() =~= seq![]);
        r
    }

    fn push(&mut self, key: String, value: String)
        ensures
            final(self).pairs() == old(self).pairs().push((key@, value@)),
    {
        self.entries.push((key, value));
        assert(self.pairs() =~= old(self).pairs().push((key@, value@)));
    }

    /// The value of `key`: the one loaded last under that key.
    pub fn get(&self, key: &str) -> (r: Option<&String>)
        ensures
            r is Some == self.map().contains_key(key@),
            r is Some ==> r->Some_0@ == self.map()[key@],
    {
        let ghost pairs = self.pairs();
        let mut i = self.entries.len();
        assert(pairs.subrange(0, i as int) =~= pairs);
        while i > 0
            invariant
                pairs == self.pairs(),
                i <= self.entries.len(),
                props_map(pairs.subrange(0, i as int)).contains_key(key@) == self.map().contains_key(
                    key@,
                ),
                props_map(pairs.subrange(0, i as int)).contains_key(key@) ==> props_map(
                    pairs.subrange(0, i as int),
                )[key@] == self.map()[key@],
            decreases i,
        {
            let ghost sub = pairs.subrange(0, i as int);
            assert(sub.drop_last() =~= pairs.subrange(0, i - 1));
            if str_eq(self.entries[i - 1].0.as_str(), key) {
                assert(props_map(sub) == props_map(sub.drop_last()).insert(key@, sub.last().1));
                return Some(&self.entries[i - 1].1);
            }
            i = i - 1;
        }
        assert(pairs.subrange(0, 0) =~= seq![]);
        None
    }
}

pub(crate) fn scan_char(s: &str, n: usize, c: char, from: usize) -> (r: usize)
    requires
        n == s@.len(),
        from <= n,
    ensures
        r == scan_to(s@, c, from as int),
        from <= r <= n,
{
    let mut i = from;
    while i < n && s.get_char(i) != c
        invariant
            n == s@.len(),
            from <= i <= n,
            scan_to(s@, c, i as int) == scan_to(s@, c, from as int),
        decreases n - i,
    {
        i = i + 1;
    }
    i
}

fn prop_from(seg: &str) -> (r: (String, String))
    ensures
        (r.0@, r.1@) == prop_of(seg@),
{
    let n = seg.unicode_len();
    let p = scan_char(seg, n, '=', 0);
    if p < n {
        (seg.substring_char(0, p).to_owned(), seg.substring_char(p + 1, n).to_owned())
    } else {
        (String::new(), seg.to_owned())
    }
}

/// Loads the properties of the query string `args` into `props`.
pub fn load_props(props: &mut Props, args: &str)
    ensures
        final(props).pairs() == old(props).pairs() + query_pairs(args@),
{
    let ghost q = args@;
    let ghost init = old(props).pairs();
    let n = args.unicode_len();
    let mut start: usize = 0;
    let mut i: usize = 0;
    proof {
        assert(q.subrange(0, 0) =~= seq![]);
    }
    while i < n
        invariant
            n == q.len(),
            q == args@,
            start <= i <= n,
            split_amp(q.subrange(0, i as int)).len() >= 1,
            split_amp(q.subrange(0, i as int)).last() == q.subrange(start as int, i as int),
            props.pairs() == init + split_amp(q.subrange(0, i as int)).drop_last().map_values(
                |s: Seq<char>| prop_of(s),
            ),
        decreases n - i,
    {
        let ghost pre = q.subrange(0, i as int);
        let ghost post = q.subrange(0, i + 1);
        proof {
            assert(post.drop_last() =~= pre);
            lemma_split_amp_nonempty(pre);
        }
        let c = args.get_char(i);
        if c == '&' {
            let (k, v) = prop_from(args.substring_char(start, i));
            props.push(k, v);
            start = i + 1;
            proof {
                assert(split_amp(post) == split_amp(pre).push(seq![]));
                assert(split_amp(post).drop_last() =~= split_amp(pre));
                assert(split_amp(pre) =~= split_amp(pre).drop_last().push(split_amp(pre).last()));
                assert(split_amp(pre).map_values(|s: Seq<char>| prop_of(s)) =~= split_amp(
                    pre,
                ).drop_last().map_values(|s: Seq<char>| prop_of(s)).push(prop_of(split_amp(pre).last())));
                assert(q.subrange(start as int, i + 1) =~= seq![]);
            }
        } else {
            proof {
                let sp = split_amp(pre);
                assert(split_amp(post) == sp.update(sp.len() - 1, sp.last().push(c)));
                assert(split_amp(post).drop_last() =~= sp.drop_last());
                assert(q.subrange(start as int, i + 1) =~= q.subrange(start as int, i as int).push(c));
            }
        }
        i = i + 1;
    }
    let (k, v) = prop_from(args.substring_char(start, n));
    props.push(k, v);
    proof {
        let sp = split_amp(q.subrange(0, n as int));
        assert(q.subrange(0, n as int) =~= q);
        assert(sp =~= sp.drop_last().push(sp.last()));
        assert(sp.map_values(|s: Seq<char>| prop_of(s)) =~= sp.drop_last().map_values(
            |s: Seq<char>| prop_of(s),
        ).push(prop_of(sp.last())));
    }
}

} // verus!
