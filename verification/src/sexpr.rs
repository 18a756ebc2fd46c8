//! S-expressions: the printed form of syntax trees and values.
use vstd::prelude::*;
use owo_colors::OwoColorize;
use crate::text::{push_all, push_char};

verus! {

broadcast use vstd::std_specs::vec::group_vec_axioms;

/// An S-expression.
#[derive(Debug)]
pub enum Sexpr {
    Skip,
    Atom(String),
    List(Vec<Sexpr>),
}

/// The mathematical form of an [`Sexpr`].
pub enum SpecSexpr {
    Skip,
    Atom(Seq<char>),
    List(Seq<SpecSexpr>),
}

pub open spec fn sexpr_view(s: Sexpr) -> SpecSexpr
    decreases s, 0int,
{
    match s {
        Sexpr::Skip => SpecSexpr::Skip,
        Sexpr::Atom(a) => SpecSexpr::Atom(a@),
        Sexpr::List(items) => SpecSexpr::List(sexprs_view(items@, items@.len() as int)),
    }
}

/// The views of the first `n` S-expressions of `items`.
pub open spec fn sexprs_view(items: Seq<Sexpr>, n: int) -> Seq<SpecSexpr>
    decreases items, n,
{
    if n <= 0 || n > items.len() {
        Seq::empty()
    } else {
        sexprs_view(items, n - 1).push(sexpr_view(items[n - 1]))
    }
}

/// The views of all the S-expressions of a vector.
pub open spec fn sexprs_of(items: Seq<Sexpr>) -> Seq<SpecSexpr> {
    sexprs_view(items, items.len() as int)
}

impl View for Sexpr {
    type V = SpecSexpr;

    open spec fn view(&self) -> SpecSexpr {
        sexpr_view(*self)
    }
}

pub proof fn lemma_sexprs_view(items: Seq<Sexpr>, n: int)
    requires
        0 <= n <= items.len(),
    ensures
        sexprs_view(items, n).len() == n,
        forall|j: int| 0 <= j < n ==> #[trigger] sexprs_view(items, n)[j] == sexpr_view(items[j]),
    decreases n,
{
    if n > 0 {
        lemma_sexprs_view(items, n - 1);
    }
}

/// The views of all the S-expressions of a vector, element by element.
pub proof fn lemma_sexprs_of(items: Seq<Sexpr>)
    ensures
        sexprs_of(items).len() == items.len(),
        forall|j: int| 0 <= j < items.len() ==> #[trigger] sexprs_of(items)[j] == items[j]@,
{
    lemma_sexprs_view(items, items.len() as int);
}

/// Text shown in bright red on an ANSI terminal.
pub open spec fn ansi_bright_red(s: Seq<char>) -> Seq<char> {
    "\x1b[91m"@ + s + "\x1b[39m"@
}

/// Text shown in bright cyan on an ANSI terminal.
pub open spec fn ansi_bright_cyan(s: Seq<char>) -> Seq<char> {
    "\x1b[96m"@ + s + "\x1b[39m"@
}

/// Text shown in bold on an ANSI terminal.
pub open spec fn ansi_bold(s: Seq<char>) -> Seq<char> {
    "\x1b[1m"@ + s + "\x1b[0m"@
}

/// The opening parenthesis of a printed list.
pub open spec fn open_paren() -> Seq<char> {
    ansi_bold(ansi_bright_red("("@))
}

/// The closing parenthesis of a printed list.
pub open spec fn close_paren() -> Seq<char> {
    ansi_bold(ansi_bright_red(")"@))
}

/// `owo_colors::OwoColorize::bright_red`, rendered: the foreground code 91
/// before the text and the default foreground code 39 after it.
#[verifier::external_body]
fn paint_bright_red(s: &str) -> (r: String)
    ensures
        r@ == ansi_bright_red(s@),
{
    s.bright_red().to_string()
}

/// `owo_colors::OwoColorize::bright_cyan`, rendered: the foreground code 96
/// before the text and the default foreground code 39 after it.
#[verifier::external_body]
fn paint_bright_cyan(s: &str) -> (r: String)
    ensures
        r@ == ansi_bright_cyan(s@),
{
    s.bright_cyan().to_string()
}

/// `owo_colors::OwoColorize::bold`, rendered: the code 1 before the text
/// and the reset code 0 after it.
#[verifier::external_body]
fn paint_bold(s: &str) -> (r: String)
    ensures
        r@ == ansi_bold(s@),
{
    s.bold().to_string()
}

/// `n` spaces.
pub open spec fn spaces(n: nat) -> Seq<char> {
    Seq::new(n, |i: int| ' ')
}

/// How deeply lists nest in an S-expression.
pub open spec fn sexpr_depth(s: SpecSexpr) -> nat
    decreases s, 0int,
{
    match s {
        SpecSexpr::List(items) => 1 + items_depth(items, items.len() as int),
        _ => 0,
    }
}

/// The greatest depth among the first `n` items.
pub open spec fn items_depth(items: Seq<SpecSexpr>, n: int) -> nat
    decreases items, n,
{
    if n <= 0 || n > items.len() {
        0
    } else {
        let d = sexpr_depth(items[n - 1]);
        let rest = items_depth(items, n - 1);
        if d > rest { d } else { rest }
    }
}

/// The printed form of an S-expression at a nesting level. With indent 0
/// a list is printed on one line, its items separated by single spaces;
/// otherwise each item starts a new line indented by `indent` spaces per
/// level, and the closing parenthesis gets a line of its own. Skipped
/// items print nothing; the first printed item of a list is cyan and the
/// parentheses of a non-empty list are bold red.
pub open spec fn spec_format(s: SpecSexpr, indent: nat, level: nat) -> Seq<char>
    decreases s, 0int,
{
    match s {
        SpecSexpr::Skip => Seq::empty(),
        SpecSexpr::Atom(a) => a,
        SpecSexpr::List(items) => {
            if items.len() == 0 {
                "()"@
            } else {
                let body = format_items(items, indent, level, items.len() as int).0;
                let tail = if indent > 0 { seq!['\n'] + spaces(level * indent) } else { Seq::empty() };
                open_paren() + body + tail + close_paren()
            }
        },
    }
}

/// The printed form of the first `n` items of a list at a level, and
/// whether none of them printed anything.
pub open spec fn format_items(items: Seq<SpecSexpr>, indent: nat, level: nat, n: int) -> (Seq<char>, bool)
    decreases items, n,
{
    if n <= 0 || n > items.len() {
        (Seq::empty(), true)
    } else {
        let prev = format_items(items, indent, level, n - 1);
        let item = items[n - 1];
        if item is Skip {
            prev
        } else {
            let sep = if !prev.1 && indent == 0 { seq![' '] } else { Seq::empty() };
            let nl = if indent > 0 { seq!['\n'] + spaces(level * indent + indent) } else { Seq::empty() };
            let f = spec_format(item, indent, level + 1);
            let line = if prev.1 { ansi_bright_cyan(f) } else { f };
            (prev.0 + sep + nl + line, false)
        }
    }
}

/// Whether the indentation of an S-expression printed at a level fits in
/// the machine's sizes.
pub open spec fn format_fits(s: SpecSexpr, indent: nat, level: nat) -> bool {
    &&& sexpr_depth(s) + level <= usize::MAX
    &&& indent == 0 || (sexpr_depth(s) + level) * indent <= usize::MAX
}

/// What printing at a level needs of the machine's sizes: nothing for an
/// atom, `Skip` or the empty list, which print without arithmetic; for
/// another list, that its indentation fits (see [`format_fits`]).
pub open spec fn format_ok(s: SpecSexpr, indent: nat, level: nat) -> bool {
    match s {
        SpecSexpr::List(items) => items.len() == 0 || format_fits(s, indent, level),
        _ => true,
    }
}

proof fn lemma_items_depth(items: Seq<SpecSexpr>, n: int, j: int)
    requires
        0 <= j < n <= items.len(),
    ensures
        sexpr_depth(items[j]) <= items_depth(items, n),
    decreases n,
{
    if j < n - 1 {
        lemma_items_depth(items, n - 1, j);
    }
}

proof fn lemma_mul_le(a: nat, b: nat, c: nat)
    requires
        a <= b,
    ensures
        a * c <= b * c,
        (a + 1) * c == a * c + c,
{
    assert(a * c <= b * c) by (nonlinear_arith)
        requires
            a <= b,
    ;
    assert((a + 1) * c == a * c + c) by (nonlinear_arith);
}

fn push_spaces(out: &mut String, n: usize)
    ensures
        final(out)@ == old(out)@ + spaces(n as nat),
{
    let mut i: usize = 0;
    while i < n
        invariant
            i <= n,
            out@ == old(out)@ + spaces(i as nat),
        decreases n - i,
    {
        push_char(out, ' ');
        i += 1;
        assert(out@ =~= old(out)@ + spaces(i as nat));
    }
}

impl Sexpr {
    /// A copy of the S-expression.
    pub fn duplicate(&self) -> (r: Sexpr)
        ensures
            r@ == self@,
        decreases *self,
    {
        match self {
            Sexpr::Skip => Sexpr::Skip,
            Sexpr::Atom(a) => Sexpr::Atom(a.clone()),
            Sexpr::List(items) => Sexpr::List(dup_sexprs(items)),
        }
    }

    /// How deeply lists nest in the S-expression, when that fits in a
    /// `usize`.
    pub fn depth(&self) -> (r: Option<usize>)
        ensures
            match r {
                Some(d) => d == sexpr_depth(self@),
                None => sexpr_depth(self@) > usize::MAX,
            },
        decreases *self,
    {
        match self {
            Sexpr::List(items) => {
                proof {
                    lemma_sexprs_of(items@);
                }
                let ghost sitems = sexprs_of(items@);
                let mut best: usize = 0;
                let mut i: usize = 0;
                while i < items.len()
                    invariant
                        i <= items@.len(),
                        sitems == sexprs_of(items@),
                        sitems.len() == items@.len(),
                        forall|j: int| 0 <= j < items@.len() ==> #[trigger] sitems[j] == items@[j]@,
                        best == items_depth(sitems, i as int),
                        *self == Sexpr::List(*items),
                        sexpr_depth(self@) == 1 + items_depth(sitems, sitems.len() as int),
                    decreases items@.len() - i,
                {
                    match items[i].depth() {
                        Some(d) => {
                            if d > best {
                                best = d;
                            }
                        },
                        None => {
                            proof {
                                lemma_items_depth(sitems, sitems.len() as int, i as int);
                            }
                            return None;
                        },
                    }
                    i += 1;
                }
                if best == usize::MAX {
                    None
                } else {
                    Some(best + 1)
                }
            },
            _ => Some(0),
        }
    }

    /// The S-expression printed with the given indentation: on one line
    /// when `indent` is 0, one item per line otherwise.
    pub fn format(&self, indent: usize) -> (r: String)
        requires
            format_ok(self@, indent as nat, 0),
        ensures
            r@ == spec_format(self@, indent as nat, 0),
    {
        self.format_with_level(indent, 0)
    }

    /// The S-expression as it shows by default: printed with an
    /// indentation of two spaces.
    pub fn to_text(&self) -> (r: String)
        requires
            format_ok(self@, 2, 0),
        ensures
            r@ == spec_format(self@, 2, 0),
    {
        self.format(2)
    }

    /// The S-expression printed at a nesting level.
    pub fn format_with_level(&self, indent: usize, level: usize) -> (r: String)
        requires
            format_ok(self@, indent as nat, level as nat),
        ensures
            r@ == spec_format(self@, indent as nat, level as nat),
        decreases *self,
    {
        match self {
            Sexpr::Skip => String::new(),
            Sexpr::Atom(s) => s.clone(),
            Sexpr::List(items) => {
                proof {
                    lemma_sexprs_of(items@);
                }
                if items.len() == 0 {
                    return String::from_str("()");
                }
                let ghost sitems = sexprs_of(items@);
                let red_open = paint_bright_red("(");
                let mut result = paint_bold(red_open.as_str());
                let mut first = true;
                let mut i: usize = 0;
                while i < items.len()
                    invariant
                        i <= items@.len(),
                        sitems == sexprs_of(items@),
                        sitems.len() == items@.len(),
                        forall|j: int| 0 <= j < items@.len() ==> #[trigger] sitems[j] == items@[j]@,
                        *self == Sexpr::List(*items),
                        format_fits(self@, indent as nat, level as nat),
                        sexpr_depth(self@) == 1 + items_depth(sitems, sitems.len() as int),
                        result@ == open_paren() + format_items(sitems, indent as nat, level as nat, i as int).0,
                        first == format_items(sitems, indent as nat, level as nat, i as int).1,
                    decreases items@.len() - i,
                {
                    let item = &items[i];
                    match item {
                        Sexpr::Skip => {},
                        _ => {
                            if !first {
                                if indent == 0 {
                                    push_char(&mut result, ' ');
                                }
                            }
                            proof {
                                lemma_items_depth(sitems, sitems.len() as int, i as int);
                                assert(sitems[i as int] == items@[i as int]@);
                                if indent > 0 {
                                    lemma_mul_le((level + 1) as nat, (sexpr_depth(self@) + level) as nat, indent as nat);
                                    lemma_mul_le(level as nat, level as nat, indent as nat);
                                    lemma_mul_le((sexpr_depth(items@[i as int]@) + level + 1) as nat, (sexpr_depth(self@) + level) as nat, indent as nat);
                                }
                            }
                            if indent > 0 {
                                push_char(&mut result, '\n');
                                let pad = level * indent + indent;
                                push_spaces(&mut result, pad);
                            }
                            let formatted_item = item.format_with_level(indent, level + 1);
                            if first {
                                let cyan = paint_bright_cyan(formatted_item.as_str());
                                push_all(&mut result, cyan.as_str());
                            } else {
                                push_all(&mut result, formatted_item.as_str());
                            }
                            first = false;
                        },
                    }
                    i += 1;
                    proof {
                        assert(result@ =~= open_paren() + format_items(sitems, indent as nat, level as nat, i as int).0);
                    }
                }
                if indent > 0 {
                    proof {
                        lemma_mul_le(level as nat, (sexpr_depth(self@) + level) as nat, indent as nat);
                    }
                    push_char(&mut result, '\n');
                    push_spaces(&mut result, level * indent);
                }
                let red_close = paint_bright_red(")");
                let close = paint_bold(red_close.as_str());
                push_all(&mut result, close.as_str());
                proof {
                    assert(result@ =~= spec_format(self@, indent as nat, level as nat));
                }
                result
            },
        }
    }
}

/// Copies of all the S-expressions of a vector.
pub fn dup_sexprs(items: &Vec<Sexpr>) -> (r: Vec<Sexpr>)
    ensures
        sexprs_of(r@) == sexprs_of(items@),
    decreases *items,
{
    let mut out: Vec<Sexpr> = Vec::new();
    let mut i: usize = 0;
    while i < items.len()
        invariant
            i <= items@.len(),
            out@.len() == i,
            forall|j: int| 0 <= j < i ==> (#[trigger] out@[j])@ == items@[j]@,
        decreases items@.len() - i,
    {
        out.push(items[i].duplicate());
        i += 1;
    }
    proof {
        lemma_sexprs_of(out@);
        lemma_sexprs_of(items@);
        assert(sexprs_of(out@) =~= sexprs_of(items@));
    }
    out
}

/// No character of the text is a line break.
pub open spec fn single_line(s: Seq<char>) -> bool {
    forall|i: int| 0 <= i < s.len() ==> s[i] != '\n'
}

/// Every atom of the S-expression is a single line.
pub open spec fn atoms_single_line(s: SpecSexpr) -> bool
    decreases s, 0int,
{
    match s {
        SpecSexpr::Atom(a) => single_line(a),
        SpecSexpr::List(items) => items_single_line(items, items.len() as int),
        SpecSexpr::Skip => true,
    }
}

/// Every atom of the first `n` items is a single line.
pub open spec fn items_single_line(items: Seq<SpecSexpr>, n: int) -> bool
    decreases items, n,
{
    if n <= 0 || n > items.len() {
        true
    } else {
        items_single_line(items, n - 1) && atoms_single_line(items[n - 1])
    }
}

proof fn lemma_concat_single_line(a: Seq<char>, b: Seq<char>)
    requires
        single_line(a),
        single_line(b),
    ensures
        single_line(a + b),
{
    assert forall|i: int| 0 <= i < (a + b).len() implies (a + b)[i] != '\n' by {
        if i < a.len() {
            assert((a + b)[i] == a[i]);
        } else {
            assert((a + b)[i] == b[i - a.len()]);
        }
    }
}

proof fn lemma_literals_single_line()
    ensures
        single_line("\x1b[91m"@),
        single_line("\x1b[96m"@),
        single_line("\x1b[39m"@),
        single_line("\x1b[1m"@),
        single_line("\x1b[0m"@),
        single_line("("@),
        single_line(")"@),
        single_line("()"@),
        single_line(" "@),
        single_line(seq![' ']),
        single_line(Seq::<char>::empty()),
{
    reveal_strlit("\x1b[91m");
    reveal_strlit("\x1b[96m");
    reveal_strlit("\x1b[39m");
    reveal_strlit("\x1b[1m");
    reveal_strlit("\x1b[0m");
    reveal_strlit("(");
    reveal_strlit(")");
    reveal_strlit("()");
    reveal_strlit(" ");
}

proof fn lemma_cyan_single_line(f: Seq<char>)
    requires
        single_line(f),
    ensures
        single_line(ansi_bright_cyan(f)),
{
    lemma_literals_single_line();
    lemma_concat_single_line("\x1b[96m"@, f);
    lemma_concat_single_line("\x1b[96m"@ + f, "\x1b[39m"@);
}

proof fn lemma_parens_single_line()
    ensures
        single_line(open_paren()),
        single_line(close_paren()),
{
    lemma_literals_single_line();
    lemma_concat_single_line("\x1b[91m"@, "("@);
    lemma_concat_single_line("\x1b[91m"@ + "("@, "\x1b[39m"@);
    lemma_concat_single_line("\x1b[1m"@, ansi_bright_red("("@));
    lemma_concat_single_line("\x1b[1m"@ + ansi_bright_red("("@), "\x1b[0m"@);
    lemma_concat_single_line("\x1b[91m"@, ")"@);
    lemma_concat_single_line("\x1b[91m"@ + ")"@, "\x1b[39m"@);
    lemma_concat_single_line("\x1b[1m"@, ansi_bright_red(")"@));
    lemma_concat_single_line("\x1b[1m"@ + ansi_bright_red(")"@), "\x1b[0m"@);
}

/// Printed with indent 0, an S-expression whose atoms are single lines is
/// a single line, at any level.
pub proof fn lemma_format_single_line(s: SpecSexpr, level: nat)
    requires
        atoms_single_line(s),
    ensures
        single_line(spec_format(s, 0, level)),
    decreases s, 0int,
{
    lemma_literals_single_line();
    match s {
        SpecSexpr::List(items) => {
            if items.len() > 0 {
                lemma_format_items_single_line(items, level, items.len() as int);
                lemma_parens_single_line();
                let body = format_items(items, 0, level, items.len() as int).0;
                lemma_concat_single_line(open_paren(), body);
                assert(open_paren() + body + Seq::<char>::empty() == open_paren() + body);
                lemma_concat_single_line(open_paren() + body, close_paren());
            }
        },
        _ => {},
    }
}

/// The items of a list printed with indent 0 make a single line.
proof fn lemma_format_items_single_line(items: Seq<SpecSexpr>, level: nat, n: int)
    requires
        0 <= n <= items.len(),
        items_single_line(items, n),
    ensures
        single_line(format_items(items, 0, level, n).0),
    decreases items, n,
{
    lemma_literals_single_line();
    if n > 0 {
        lemma_format_items_single_line(items, level, n - 1);
        let item = items[n - 1];
        if !(item is Skip) {
            lemma_format_single_line(item, level + 1);
            let prev = format_items(items, 0, level, n - 1);
            let f = spec_format(item, 0, level + 1);
            lemma_cyan_single_line(f);
            let sep: Seq<char> = if !prev.1 { seq![' '] } else { Seq::empty() };
            let line = if prev.1 { ansi_bright_cyan(f) } else { f };
            lemma_concat_single_line(prev.0, sep);
            lemma_concat_single_line(prev.0 + sep, Seq::<char>::empty());
            lemma_concat_single_line(prev.0 + sep + Seq::<char>::empty(), line);
        }
    }
}

} // verus!
