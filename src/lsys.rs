use crate::grammar::Grammar;
use vstd::prelude::*;
use vstd::string::StrSliceExecFns;

verus! {

/// An entry of the expansion stack: a symbol awaiting processing, or the mark
/// that closes the region of one production (popping it lowers the depth).
#[derive(Clone, Copy, Debug, PartialEq, Eq)]
pub enum Entry {
    Symbol(char),
    Marker,
}

/// The leftmost, depth-first expansion of `s` at depth `d`, where a symbol is
/// rewritten only while the depth is below `max` and it has a production.
pub open spec fn expand(g: Map<char, Seq<char>>, s: Seq<char>, d: int, max: int) -> Seq<char>
    decreases max - d, s.len(),
{
    if s.len() == 0 {
        seq![]
    } else {
        let c = s[0];
        let head = if d < max && g.contains_key(c) {
            expand(g, g[c], d + 1, max)
        } else {
            seq![c]
        };
        head + expand(g, s.drop_first(), d, max)
    }
}

/// What `Lsys::next` yields, in order, from a seed: its full expansion.
pub open spec fn expansion(g: Map<char, Seq<char>>, seed: Seq<char>, max: int) -> Seq<char> {
    expand(g, seed, 0, max)
}

/// The symbols still to be yielded from stack `st` (top last) at depth `d`.
pub open spec fn pending(g: Map<char, Seq<char>>, max: int, st: Seq<Entry>, d: int) -> Seq<char>
    decreases st.len(),
{
    if st.len() == 0 {
        seq![]
    } else {
        match st.last() {
            Entry::Marker => pending(g, max, st.drop_last(), d - 1),
            Entry::Symbol(c) => expand(g, seq![c], d, max) + pending(g, max, st.drop_last(), d),
        }
    }
}

/// The number of markers on stack `st`.
pub open spec fn markers(st: Seq<Entry>) -> nat
    decreases st.len(),
{
    if st.len() == 0 {
        0
    } else {
        markers(st.drop_last()) + if st.last() is Marker {
            1nat
        } else {
            0nat
        }
    }
}

/// The stack entries that yield `s` leftmost first: its symbols, last at the bottom.
pub open spec fn stacked(s: Seq<char>) -> Seq<Entry> {
    Seq::new(s.len(), |i: int| stacked_entry(s, i))
}

/// Entry `i` of `stacked(s)`, counted from the bottom.
pub open spec fn stacked_entry(s: Seq<char>, i: int) -> Entry {
    Entry::Symbol(s[s.len() - 1 - i])
}

/// Steps of `Lsys::next` that expanding `s` at depth `d` takes: one per symbol
/// yielded, and two per production applied (its expansion, its marker).
spec fn cost(g: Map<char, Seq<char>>, s: Seq<char>, d: int, max: int) -> nat
    decreases max - d, s.len(),
{
    if s.len() == 0 {
        0
    } else {
        let c = s[0];
        let head = if d < max && g.contains_key(c) {
            2 + cost(g, g[c], d + 1, max)
        } else {
            1nat
        };
        head + cost(g, s.drop_first(), d, max)
    }
}

/// Steps of `Lsys::next` left for stack `st` at depth `d`.
spec fn work(g: Map<char, Seq<char>>, max: int, st: Seq<Entry>, d: int) -> nat
    decreases st.len(),
{
    if st.len() == 0 {
        0
    } else {
        match st.last() {
            Entry::Marker => 1 + work(g, max, st.drop_last(), d - 1),
            Entry::Symbol(c) => cost(g, seq![c], d, max) + work(g, max, st.drop_last(), d),
        }
    }
}

proof fn lemma_expand_one(g: Map<char, Seq<char>>, c: char, d: int, max: int)
    ensures
        expand(g, seq![c], d, max) == (if d < max && g.contains_key(c) {
            expand(g, g[c], d + 1, max)
        } else {
            seq![c]
        }),
        cost(g, seq![c], d, max) == (if d < max && g.contains_key(c) {
            2 + cost(g, g[c], d + 1, max)
        } else {
            1nat
        }),
{
    reveal_with_fuel(expand, 2);
    reveal_with_fuel(cost, 2);
    assert(seq![c].drop_first() =~= Seq::<char>::empty());
    let head = if d < max && g.contains_key(c) {
        expand(g, g[c], d + 1, max)
    } else {
        seq![c]
    };
    assert(head + seq![] =~= head);
}

/// Stacking `s` over `st` yields the expansion of `s`, then what `st` yields.
proof fn lemma_stacked(g: Map<char, Seq<char>>, max: int, st: Seq<Entry>, s: Seq<char>, d: int)
    ensures
        pending(g, max, st + stacked(s), d) == expand(g, s, d, max) + pending(g, max, st, d),
        work(g, max, st + stacked(s), d) == cost(g, s, d, max) + work(g, max, st, d),
        markers(st + stacked(s)) == markers(st),
    decreases s.len(),
{
    assert(stacked(s).len() == s.len());
    if s.len() == 0 {
        assert(st + stacked(s) =~= st);
        assert(expand(g, s, d, max) + pending(g, max, st, d) =~= pending(g, max, st, d));
    } else {
        let c = s[0];
        let rest = s.drop_first();
        let full = st + stacked(s);
        lemma_stacked(g, max, st, rest, d);
        lemma_expand_one(g, c, d, max);
        assert(stacked(s).drop_last() =~= stacked(rest));
        assert(full.drop_last() =~= st + stacked(rest));
        assert(full.last() == stacked(s).last());
        assert(expand(g, s, d, max) == expand(g, seq![c], d, max) + expand(g, rest, d, max));
        assert(expand(g, s, d, max) + pending(g, max, st, d) =~= expand(g, seq![c], d, max) + (
        expand(g, rest, d, max) + pending(g, max, st, d)));
    }
}

/// A lazily expanded L-system: each pull yields the next terminal symbol.
pub struct Lsys {
    line: Vec<Entry>,
    grammar: Grammar,
    depth: i32,
    max_depth: i32,
}

impl Lsys {
    /// The expansion stack, top last.
    pub closed spec fn stack(&self) -> Seq<Entry> {
        self.line@
    }

    /// The current expansion depth.
    pub closed spec fn depth(&self) -> int {
        self.depth as int
    }

    /// The ceiling on the expansion depth.
    pub closed spec fn max_depth(&self) -> int {
        self.max_depth as int
    }

    /// The productions.
    pub closed spec fn grammar(&self) -> Map<char, Seq<char>> {
        self.grammar@
    }

    /// The markers on the stack count the depth, which stays within its ceiling.
    pub open spec fn wf(&self) -> bool {
        &&& markers(self.stack()) == self.depth()
        &&& 0 <= self.depth() <= self.max_depth()
    }

    /// The symbols that the remaining pulls yield, in order.
    pub open spec fn remaining(&self) -> Seq<char> {
        pending(self.grammar(), self.max_depth(), self.stack(), self.depth())
    }

    /// Starts the expansion of `seed` under `grammar`, rewriting at most
    /// `max_depth` levels deep.
    pub fn new(seed: Vec<char>, grammar: Grammar, max_depth: i32) -> (r: Lsys)
        requires
            max_depth >= 0,
        ensures
            r.wf(),
            r.grammar() == grammar@,
            r.max_depth() == max_depth,
            r.depth() == 0,
            r.remaining() == expansion(grammar@, seed@, max_depth as int),
    {
        let mut line: Vec<Entry> = Vec::with_capacity(seed.len());
        let mut i: usize = seed.len();
        assert(line@ =~= stacked(seed@.subrange(i as int, seed@.len() as int)));
        while i > 0
            invariant
                i <= seed@.len(),
                line@ =~= stacked(seed@.subrange(i as int, seed@.len() as int)),
            decreases i,
        {
            let ghost before = line@;
            i = i - 1;
            line.push(Entry::Symbol(seed[i]));
            assert(line@ =~= stacked(seed@.subrange(i as int, seed@.len() as int))) by {
                assert(line@ == before.push(Entry::Symbol(seed@[i as int])));
                let ghost now = stacked(seed@.subrange(i as int, seed@.len() as int));
                let ghost was = stacked(seed@.subrange(i + 1, seed@.len() as int));
                assert(before == was);
                assert forall|j: int| 0 <= j < was.len() implies now[j] == was[j] by {
                    assert(stacked_entry(seed@.subrange(i as int, seed@.len() as int), j)
                        == Entry::Symbol(seed@[seed@.len() - 1 - j]));
                    assert(stacked_entry(seed@.subrange(i + 1, seed@.len() as int), j)
                        == Entry::Symbol(seed@[seed@.len() - 1 - j]));
                }
                assert(now[was.len() as int] == stacked_entry(
                    seed@.subrange(i as int, seed@.len() as int),
                    was.len() as int,
                ));
            }
        }
        assert(seed@.subrange(0, seed@.len() as int) =~= seed@);
        let r = Lsys { line, grammar, depth: 0, max_depth };
        proof {
            lemma_stacked(grammar@, max_depth as int, Seq::empty(), seed@, 0);
            assert(Seq::<Entry>::empty() + stacked(seed@) =~= stacked(seed@));
            assert(expansion(grammar@, seed@, max_depth as int) + Seq::<char>::empty()
                =~= expansion(grammar@, seed@, max_depth as int));
        }
        r
    }

    /// Yields the next terminal symbol of the expansion, or `None` once it is
    /// exhausted (and on every later call).
    pub fn next(&mut self) -> (r: Option<char>)
        requires
            old(self).wf(),
        ensures
            final(self).wf(),
            final(self).grammar() == old(self).grammar(),
            final(self).max_depth() == old(self).max_depth(),
            match r {
                None => old(self).remaining() == Seq::<char>::empty() && final(self).remaining()
                    == Seq::<char>::empty(),
                Some(c) => old(self).remaining() == seq![c] + final(self).remaining(),
            },
    {
        loop
            invariant
                self.wf(),
                self.grammar() == old(self).grammar(),
                self.max_depth() == old(self).max_depth(),
                self.remaining() == old(self).remaining(),
            decreases work(self.grammar@, self.max_depth as int, self.line@, self.depth as int),
        {
            let ghost g = self.grammar@;
            let ghost max = self.max_depth as int;
            let ghost d = self.depth as int;
            let ghost line = self.line@;
            match self.line.pop() {
                None => {
                    return None;
                },
                Some(Entry::Marker) => {
                    assert(line =~= self.line@.push(Entry::Marker));
                    self.depth = self.depth - 1;
                },
                Some(Entry::Symbol(c)) => {
                    let ghost base = self.line@;
                    assert(line =~= base.push(Entry::Symbol(c)));
                    proof {
                        lemma_expand_one(g, c, d, max);
                    }
                    if self.depth == self.max_depth {
                        return Some(c);
                    }
                    match self.grammar.get(c) {
                        None => {
                            return Some(c);
                        },
                        Some(production) => {
                            self.depth = self.depth + 1;
                            self.line.push(Entry::Marker);
                            let ghost marked = self.line@;
                            let mut j: usize = production.len();
                            assert(production@.subrange(j as int, production@.len() as int)
                                =~= Seq::<char>::empty());
                            assert(self.line@ =~= marked + stacked(Seq::<char>::empty()));
                            while j > 0
                                invariant
                                    j <= production@.len(),
                                    self.line@ == marked + stacked(
                                        production@.subrange(j as int, production@.len() as int),
                                    ),
                                    self.grammar@ == g,
                                    self.depth == d + 1,
                                    self.max_depth == max,
                                decreases j,
                            {
                                let ghost before = self.line@;
                                j = j - 1;
                                self.line.push(Entry::Symbol(production[j]));
                                proof {
                                    let n = production@.len() as int;
                                    let now = stacked(production@.subrange(j as int, n));
                                    let was = stacked(production@.subrange(j + 1, n));
                                    assert forall|k: int| 0 <= k < was.len() implies now[k]
                                        == was[k] by {
                                        assert(stacked_entry(production@.subrange(j as int, n), k)
                                            == Entry::Symbol(production@[n - 1 - k]));
                                        assert(stacked_entry(production@.subrange(j + 1, n), k)
                                            == Entry::Symbol(production@[n - 1 - k]));
                                    }
                                    assert(now[was.len() as int] == stacked_entry(
                                        production@.subrange(j as int, n),
                                        was.len() as int,
                                    ));
                                    assert(now =~= was.push(Entry::Symbol(production@[j as int])));
                                    assert(self.line@ =~= marked + now);
                                }
                            }
                            proof {
                                let p = g[c];
                                assert(production@.subrange(0, production@.len() as int) =~= p);
                                lemma_stacked(g, max, marked, p, d + 1);
                                assert(marked.drop_last() =~= base);
                                assert(pending(g, max, marked, d + 1) == pending(g, max, base, d));
                                assert(work(g, max, marked, d + 1) == 1 + work(g, max, base, d));
                                assert(markers(marked) == markers(base) + 1);
                                assert(expand(g, p, d + 1, max) + pending(g, max, base, d)
                                    == pending(g, max, line, d));
                            }
                        },
                    }
                },
            }
        }
    }

    /// Pulls every remaining symbol, in order.
    pub fn drain(&mut self) -> (r: Vec<char>)
        requires
            old(self).wf(),
        ensures
            final(self).wf(),
            r@ == old(self).remaining(),
            final(self).remaining() == Seq::<char>::empty(),
    {
        let mut out: Vec<char> = Vec::new();
        loop
            invariant
                self.wf(),
                out@ + self.remaining() == old(self).remaining(),
            decreases self.remaining().len(),
        {
            match self.next() {
                None => {
                    assert(out@ + self.remaining() =~= out@);
                    return out;
                },
                Some(c) => {
                    let ghost rest = self.remaining();
                    out.push(c);
                    assert(out@ + rest =~= old(self).remaining());
                },
            }
        }
    }
}

/// The whole expansion of `seed` under `grammar`, rewriting at most `max_depth`
/// levels deep: the symbols that successive pulls of a fresh [`Lsys`] yield.
pub fn expand_all(seed: Vec<char>, grammar: Grammar, max_depth: i32) -> (r: Vec<char>)
    requires
        max_depth >= 0,
    ensures
        r@ == expansion(grammar@, seed@, max_depth as int),
{
    let mut l = Lsys::new(seed, grammar, max_depth);
    l.drain()
}

/// Depth invariant: on a well-formed expander the markers on the stack count
/// the current depth, which lies between zero and the ceiling.
pub proof fn lemma_depth_invariant(l: &Lsys)
    requires
        l.wf(),
    ensures
        markers(l.stack()) == l.depth(),
        0 <= l.depth() <= l.max_depth(),
{
}

/// A symbol without a production expands to itself at every depth.
pub proof fn lemma_terminal_verbatim(g: Map<char, Seq<char>>, c: char, d: int, max: int)
    requires
        !g.contains_key(c),
    ensures
        expand(g, seq![c], d, max) == seq![c],
{
    lemma_expand_one(g, c, d, max);
}

/// At the depth ceiling every symbol expands to itself.
pub proof fn lemma_ceiling_verbatim(g: Map<char, Seq<char>>, c: char, max: int)
    ensures
        expand(g, seq![c], max, max) == seq![c],
{
    lemma_expand_one(g, c, max, max);
}

/// The characters of `line`, in order.
pub fn str_char_vec(line: &str) -> (r: Vec<char>)
    ensures
        r@ == line@,
{
    let n = line.unicode_len();
    let mut chars: Vec<char> = Vec::with_capacity(n);
    let mut i: usize = 0;
    while i < n
        invariant
            n == line@.len(),
            i <= n,
            chars@ == line@.subrange(0, i as int),
        decreases n - i,
    {
        chars.push(line.get_char(i));
        i = i + 1;
        assert(chars@ =~= line@.subrange(0, i as int));
    }
    assert(line@.subrange(0, n as int) =~= line@);
    chars
}

/// The characters of `line`, in order.
pub fn string_char_vec(line: &String) -> (r: Vec<char>)
    ensures
        r@ == line@,
{
    str_char_vec(line.as_str())
}

/// The grammar of the quadratic Koch curve: `f` becomes `f+f-f-f+f`.
pub fn basic_grammar() -> (r: Grammar)
    ensures
        r@ == map!['f' => seq!['f', '+', 'f', '-', 'f', '-', 'f', '+', 'f']],
{
    let mut grammar = Grammar::new();
    let production = str_char_vec("f+f-f-f+f");
    proof {
        reveal_strlit("f+f-f-f+f");
    }
    assert(production@ =~= seq!['f', '+', 'f', '-', 'f', '-', 'f', '+', 'f']);
    grammar.insert('f', production);
    assert(grammar@ =~= map!['f' => seq!['f', '+', 'f', '-', 'f', '-', 'f', '+', 'f']]);
    grammar
}

} // verus!
