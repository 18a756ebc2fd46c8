//! Laws of printing S-expressions: leaves print as themselves, a
//! positive indent breaks lines, and `Skip` items print nothing.
use vstd::prelude::*;
use crate::sexpr::{SpecSexpr, close_paren, format_items, open_paren, single_line, spaces, spec_format};

verus! {

/// Atoms, `Skip` and the empty list print as themselves, at any level
/// and indentation: an atom as its text, `Skip` as nothing, the empty
/// list as a plain `()`.
pub proof fn lemma_format_leaves(a: Seq<char>, indent: nat, level: nat)
    ensures
        spec_format(SpecSexpr::Atom(a), indent, level) == a,
        spec_format(SpecSexpr::Skip, indent, level) == Seq::<char>::empty(),
        spec_format(SpecSexpr::List(Seq::empty()), indent, level) == "()"@,
{
}

/// Printed with a positive indent, a non-empty list takes more than one
/// line: its closing parenthesis starts a line of its own.
pub proof fn lemma_format_indented_lines(items: Seq<SpecSexpr>, indent: nat, level: nat)
    requires
        items.len() > 0,
        indent > 0,
    ensures
        !single_line(spec_format(SpecSexpr::List(items), indent, level)),
{
    let body = format_items(items, indent, level, items.len() as int).0;
    let tail = seq!['\n'] + spaces(level * indent);
    let f = open_paren() + body + tail + close_paren();
    let i = open_paren().len() + body.len();
    assert(f[i as int] == '\n');
}

/// The items of a list that print something: its items without the
/// `Skip`s, in order.
pub open spec fn drop_skips(items: Seq<SpecSexpr>, n: int) -> Seq<SpecSexpr>
    decreases n,
{
    if n <= 0 || n > items.len() {
        Seq::empty()
    } else if items[n - 1] is Skip {
        drop_skips(items, n - 1)
    } else {
        drop_skips(items, n - 1).push(items[n - 1])
    }
}

proof fn lemma_format_items_prefix(s: Seq<SpecSexpr>, x: SpecSexpr, indent: nat, level: nat, m: int)
    requires
        0 <= m <= s.len(),
    ensures
        format_items(s.push(x), indent, level, m) == format_items(s, indent, level, m),
    decreases m,
{
    if m > 0 {
        lemma_format_items_prefix(s, x, indent, level, m - 1);
        assert(s.push(x)[m - 1] == s[m - 1]);
    }
}

/// `Skip` items change nothing in printing: the items of a list print as
/// the same items without their `Skip`s.
pub proof fn lemma_skips_print_nothing(items: Seq<SpecSexpr>, indent: nat, level: nat, n: int)
    requires
        0 <= n <= items.len(),
    ensures
        format_items(items, indent, level, n) == format_items(
            drop_skips(items, n),
            indent,
            level,
            drop_skips(items, n).len() as int,
        ),
    decreases n,
{
    if n > 0 {
        lemma_skips_print_nothing(items, indent, level, n - 1);
        let d = drop_skips(items, n - 1);
        if !(items[n - 1] is Skip) {
            lemma_format_items_prefix(d, items[n - 1], indent, level, d.len() as int);
            assert(d.push(items[n - 1])[d.len() as int] == items[n - 1]);
        }
    }
}

/// A list with an item that prints something prints as the list of the
/// items that print something.
pub proof fn lemma_list_without_skips(items: Seq<SpecSexpr>, indent: nat, level: nat)
    requires
        drop_skips(items, items.len() as int).len() > 0,
    ensures
        spec_format(SpecSexpr::List(items), indent, level) == spec_format(
            SpecSexpr::List(drop_skips(items, items.len() as int)),
            indent,
            level,
        ),
{
    lemma_skips_print_nothing(items, indent, level, items.len() as int);
    lemma_drop_skips_len(items, items.len() as int);
}

proof fn lemma_drop_skips_len(items: Seq<SpecSexpr>, n: int)
    requires
        0 <= n <= items.len(),
    ensures
        drop_skips(items, n).len() <= n,
    decreases n,
{
    if n > 0 {
        lemma_drop_skips_len(items, n - 1);
    }
}

} // verus!
