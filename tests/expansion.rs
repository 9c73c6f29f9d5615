use lsystem::grammar::Grammar;
use lsystem::lsys::{basic_grammar, expand_all, str_char_vec, string_char_vec, Lsys};

fn pull_all(l: &mut Lsys) -> String {
    let mut out = String::new();
    while let Some(c) = l.next() {
        out.push(c);
    }
    out
}

#[test]
fn one_level_of_koch_curve() {
    let mut l = Lsys::new(str_char_vec("f"), basic_grammar(), 1);
    assert_eq!(l.next(), Some('f'));
    let rest = pull_all(&mut l);
    assert_eq!(format!("f{}", rest), "f+f-f-f+f");
    assert_eq!(l.next(), None);
}

#[test]
fn depth_zero_yields_the_seed() {
    let mut l = Lsys::new(str_char_vec("f"), basic_grammar(), 0);
    assert_eq!(l.next(), Some('f'));
    assert_eq!(l.next(), None);
    assert_eq!(l.next(), None);
}

#[test]
fn two_levels_of_koch_curve() {
    let out: String = expand_all(str_char_vec("f"), basic_grammar(), 2).into_iter().collect();
    let one = "f+f-f-f+f";
    let expected = format!("{0}+{0}-{0}-{0}+{0}", one);
    assert_eq!(out, expected);
}

#[test]
fn leftmost_symbol_comes_first() {
    let mut g = Grammar::new();
    g.insert('a', str_char_vec("xy"));
    g.insert('b', str_char_vec("z"));
    let out: String = expand_all(str_char_vec("ab-"), g, 3).into_iter().collect();
    assert_eq!(out, "xyz-");
}

#[test]
fn symbols_without_production_pass_verbatim() {
    let mut g = Grammar::new();
    g.insert('a', str_char_vec("qa"));
    let out: String = expand_all(str_char_vec("a"), g, 3).into_iter().collect();
    assert_eq!(out, "qqqa");
    let out: String = expand_all(str_char_vec("?!"), basic_grammar(), 5).into_iter().collect();
    assert_eq!(out, "?!");
}

#[test]
fn empty_production_vanishes() {
    let mut g = Grammar::new();
    g.insert('e', Vec::new());
    let out: String = expand_all(str_char_vec("aeb"), g, 4).into_iter().collect();
    assert_eq!(out, "ab");
}

#[test]
fn cycle_is_cut_at_the_ceiling() {
    let mut g = Grammar::new();
    g.insert('a', str_char_vec("b"));
    g.insert('b', str_char_vec("a"));
    let out: String = expand_all(str_char_vec("a"), g, 5).into_iter().collect();
    assert_eq!(out, "b");
}

#[test]
fn empty_seed_is_exhausted_at_once() {
    let mut l = Lsys::new(Vec::new(), basic_grammar(), 3);
    assert_eq!(l.next(), None);
}

#[test]
fn drain_after_partial_pull() {
    let mut l = Lsys::new(str_char_vec("f"), basic_grammar(), 1);
    assert_eq!(l.next(), Some('f'));
    assert_eq!(l.next(), Some('+'));
    let rest: String = l.drain().into_iter().collect();
    assert_eq!(rest, "f-f-f+f");
    assert!(l.drain().is_empty());
}

#[test]
fn same_inputs_same_sequence() {
    let a = expand_all(str_char_vec("f-f"), basic_grammar(), 3);
    let b = expand_all(str_char_vec("f-f"), basic_grammar(), 3);
    assert_eq!(a, b);
    // each `f` three levels deep yields 5 * (5 * (5 + 4) + 4) + 4 symbols.
    assert_eq!(a.len(), 2 * 249 + 1);
}

#[test]
fn grammar_lookup_and_replace() {
    let mut g = Grammar::new();
    assert!(g.get('f').is_none());
    g.insert('f', str_char_vec("ab"));
    assert_eq!(g.get('f'), Some(&vec!['a', 'b']));
    g.insert('f', str_char_vec("c"));
    assert_eq!(g.get('f'), Some(&vec!['c']));
    assert!(g.get('g').is_none());
    assert_eq!(basic_grammar().get('f'), Some(&str_char_vec("f+f-f-f+f")));
}

#[test]
fn char_vectors_keep_every_char() {
    assert_eq!(str_char_vec(""), Vec::<char>::new());
    assert_eq!(str_char_vec("f+é"), vec!['f', '+', 'é']);
    let s = String::from("[f]ü");
    assert_eq!(string_char_vec(&s), vec!['[', 'f', ']', 'ü']);
}
