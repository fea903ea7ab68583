//! The parser: raw source text to a syntax tree of nested lists and atoms.

use vstd::prelude::*;

use crate::error::{Error, ErrorView};

verus! {

/// Nesting bound shared by parsing and lowering: recursion past this depth
/// is a fatal error, guarding against pathological nesting.
pub const RECURSION_LIMIT: usize = 100;

/// Parsed, uncompiled text: a syntax tree of atoms and nested lists.
#[derive(Debug, PartialEq)]
pub enum Parsed {
    /// Single item token: a maximal run of non-space, non-bracket characters.
    Item(String),
    /// The contents of one matched `(...)` pair, in source order.
    List(Vec<Parsed>),
}

/// Mathematical model of a syntax node.
pub enum ParsedView {
    Item(Seq<char>),
    List(Seq<ParsedView>),
}

/// The model of one syntax node.
pub open spec fn parsed_view(p: Parsed) -> ParsedView
    decreases p,
{
    match p {
        Parsed::Item(s) => ParsedView::Item(s@),
        Parsed::List(l) => ParsedView::List(
            Seq::new(
                l@.len(),
                |i: int|
                    if 0 <= i < l@.len() {
                        parsed_view(l@[i])
                    } else {
                        ParsedView::Item(Seq::empty())
                    },
            ),
        ),
    }
}

impl View for Parsed {
    type V = ParsedView;

    open spec fn view(&self) -> ParsedView {
        parsed_view(*self)
    }
}

impl DeepView for Parsed {
    type V = ParsedView;

    open spec fn deep_view(&self) -> ParsedView {
        self.view()
    }
}

/// The models of a sequence of syntax nodes, element-wise.
pub open spec fn views_of(l: Seq<Parsed>) -> Seq<ParsedView> {
    Seq::new(l.len(), |i: int| parsed_view(l[i]))
}

proof fn lemma_views_of_push(l: Seq<Parsed>, p: Parsed)
    ensures
        views_of(l.push(p)) == views_of(l).push(parsed_view(p)),
{
    assert(views_of(l.push(p)) =~= views_of(l).push(parsed_view(p)));
}

pub(crate) proof fn lemma_parsed_view_list(l: Vec<Parsed>)
    ensures
        parsed_view(Parsed::List(l)) == ParsedView::List(views_of(l@)),
{
    assert(parsed_view(Parsed::List(l))->List_0 =~= views_of(l@));
}

/// The models of a stack of partially-built lists, element-wise.
pub open spec fn stack_views(s: Seq<Vec<Parsed>>) -> Seq<Seq<ParsedView>> {
    Seq::new(s.len(), |i: int| views_of(s[i]@))
}

proof fn lemma_stack_views_push(s: Seq<Vec<Parsed>>, l: Vec<Parsed>)
    ensures
        stack_views(s.push(l)) == stack_views(s).push(views_of(l@)),
{
    assert(stack_views(s.push(l)) =~= stack_views(s).push(views_of(l@)));
}

proof fn lemma_stack_views_drop_last(s: Seq<Vec<Parsed>>)
    requires
        s.len() > 0,
    ensures
        stack_views(s.drop_last()) == stack_views(s).drop_last(),
        views_of(s.last()@) == stack_views(s).last(),
{
    assert(stack_views(s.drop_last()) =~= stack_views(s).drop_last());
}

/// The pending atom flushed into the current list: an empty atom adds
/// nothing.
pub open spec fn flush(acc: Seq<ParsedView>, atom: Seq<char>) -> Seq<ParsedView> {
    if atom.len() == 0 {
        acc
    } else {
        acc.push(ParsedView::Item(atom))
    }
}

/// End of input closes every open list, innermost first, attaching each to
/// its enclosing list.
pub open spec fn close_all(stack: Seq<Seq<ParsedView>>, acc: Seq<ParsedView>) -> Seq<ParsedView>
    decreases stack.len(),
{
    if stack.len() == 0 {
        acc
    } else {
        close_all(stack.drop_last(), stack.last().push(ParsedView::List(acc)))
    }
}

/// The parser's single left-to-right scan, one character per step.
///
/// `i` is the cursor, `stack` holds the partially-built enclosing lists,
/// `acc` the list being built, and `atom` the atom being accumulated.
/// Newlines are always skipped; a space flushes the pending atom; `(` opens
/// a nested list (a fatal error past the nesting bound); `)` closes the
/// current list, or ends the scan when no list is open; any other character
/// extends the atom.  End of input flushes the atom and closes every open
/// list.
pub open spec fn parse_loop(
    text: Seq<char>,
    i: int,
    stack: Seq<Seq<ParsedView>>,
    acc: Seq<ParsedView>,
    atom: Seq<char>,
) -> Result<Seq<ParsedView>, ErrorView>
    decreases text.len() - i,
{
    if i < 0 || i >= text.len() {
        Ok(close_all(stack, flush(acc, atom)))
    } else {
        let c = text[i];
        if c == '\n' {
            parse_loop(text, i + 1, stack, acc, atom)
        } else if c == ' ' {
            parse_loop(text, i + 1, stack, flush(acc, atom), Seq::empty())
        } else if c == '(' {
            if stack.len() + 1 >= RECURSION_LIMIT as int {
                Err(ErrorView::RecursionLimit)
            } else {
                parse_loop(text, i + 1, stack.push(flush(acc, atom)), Seq::empty(), Seq::empty())
            }
        } else if c == ')' {
            if stack.len() == 0 {
                Ok(flush(acc, atom))
            } else {
                parse_loop(
                    text,
                    i + 1,
                    stack.drop_last(),
                    stack.last().push(ParsedView::List(flush(acc, atom))),
                    Seq::empty(),
                )
            }
        } else {
            parse_loop(text, i + 1, stack, acc, atom.push(c))
        }
    }
}

/// What parsing source text yields: always the implicit outermost list.
pub open spec fn parse_spec(text: Seq<char>) -> Result<ParsedView, ErrorView> {
    match parse_loop(text, 0, Seq::empty(), Seq::empty(), Seq::empty()) {
        Ok(items) => Ok(ParsedView::List(items)),
        Err(e) => Err(e),
    }
}

/// A `Result` of parsing, seen at the model level.
pub open spec fn parsed_result_view(r: Result<Parsed, Error>) -> Result<ParsedView, ErrorView> {
    match r {
        Ok(p) => Ok(p@),
        Err(e) => Err(e@),
    }
}

impl Parsed {
    /// Parse the uncompiled script from source text.  The result is the
    /// implicit outermost list.
    pub fn from(text: &str) -> (r: Result<Parsed, Error>)
        ensures
            parsed_result_view(r) == parse_spec(text@),
    {
        let n = text.unicode_len();
        let mut stack: Vec<Vec<Parsed>> = Vec::new();
        let mut acc: Vec<Parsed> = Vec::new();
        let mut atom: String = String::new();
        let mut i: usize = 0;
        proof {
            assert(stack_views(stack@) =~= Seq::<Seq<ParsedView>>::empty());
            assert(views_of(acc@) =~= Seq::<ParsedView>::empty());
        }
        while i < n
            invariant
                i <= n,
                n == text@.len(),
                parse_loop(text@, i as int, stack_views(stack@), views_of(acc@), atom@)
                    == parse_loop(
                    text@,
                    0,
                    Seq::<Seq<ParsedView>>::empty(),
                    Seq::<ParsedView>::empty(),
                    Seq::<char>::empty(),
                ),
            decreases n - i,
        {
            let ghost s0 = stack_views(stack@);
            let ghost a0 = views_of(acc@);
            let ghost t0 = atom@;
            let c = text.get_char(i);
            if c == '\n' {
                // skipped outright, even inside an atom
            } else if c == ' ' {
                proof {
                    if atom@.len() != 0 {
                        lemma_views_of_push(acc@, Parsed::Item(atom));
                    } else {
                        assert(atom@ =~= Seq::<char>::empty());
                    }
                }
                if !atom.as_str().is_empty() {
                    acc.push(Parsed::Item(atom));
                    atom = String::new();
                }
            } else if c == '(' {
                proof {
                    if atom@.len() != 0 {
                        lemma_views_of_push(acc@, Parsed::Item(atom));
                    } else {
                        assert(atom@ =~= Seq::<char>::empty());
                    }
                }
                if !atom.as_str().is_empty() {
                    acc.push(Parsed::Item(atom));
                    atom = String::new();
                }
                if stack.len() >= RECURSION_LIMIT - 1 {
                    return Err(Error::RecursionLimit);
                }
                proof {
                    lemma_stack_views_push(stack@, acc);
                }
                stack.push(acc);
                acc = Vec::new();
                proof {
                    assert(views_of(acc@) =~= Seq::<ParsedView>::empty());
                }
            } else if c == ')' {
                proof {
                    if atom@.len() != 0 {
                        lemma_views_of_push(acc@, Parsed::Item(atom));
                    } else {
                        assert(atom@ =~= Seq::<char>::empty());
                    }
                }
                if !atom.as_str().is_empty() {
                    acc.push(Parsed::Item(atom));
                    atom = String::new();
                }
                if stack.len() == 0 {
                    proof {
                        lemma_parsed_view_list(acc);
                    }
                    return Ok(Parsed::List(acc));
                }
                proof {
                    lemma_stack_views_drop_last(stack@);
                }
                let mut top = stack.pop().unwrap();
                proof {
                    lemma_parsed_view_list(acc);
                    lemma_views_of_push(top@, Parsed::List(acc));
                }
                top.push(Parsed::List(acc));
                acc = top;
            } else {
                let ghost atom0 = atom@;
                atom.append(text.substring_char(i, i + 1));
                proof {
                    assert(atom@ =~= atom0.push(text@[i as int]));
                }
            }
            proof {
                assert(parse_loop(text@, i as int, s0, a0, t0) == parse_loop(
                    text@,
                    i + 1,
                    stack_views(stack@),
                    views_of(acc@),
                    atom@,
                ));
            }
            i += 1;
        }
        proof {
            if atom@.len() != 0 {
                lemma_views_of_push(acc@, Parsed::Item(atom));
            } else {
                assert(atom@ =~= Seq::<char>::empty());
            }
        }
        if !atom.as_str().is_empty() {
            acc.push(Parsed::Item(atom));
        }
        while stack.len() > 0
            invariant
                Ok::<Seq<ParsedView>, ErrorView>(close_all(stack_views(stack@), views_of(acc@)))
                    == parse_loop(
                    text@,
                    0,
                    Seq::<Seq<ParsedView>>::empty(),
                    Seq::<ParsedView>::empty(),
                    Seq::<char>::empty(),
                ),
            decreases stack.len(),
        {
            proof {
                lemma_stack_views_drop_last(stack@);
            }
            let ghost s1 = stack_views(stack@);
            let ghost a1 = views_of(acc@);
            proof {
                lemma_stack_views_drop_last(stack@);
            }
            let mut top = stack.pop().unwrap();
            proof {
                lemma_parsed_view_list(acc);
                lemma_views_of_push(top@, Parsed::List(acc));
                assert(close_all(s1, a1) == close_all(s1.drop_last(), s1.last().push(ParsedView::List(a1))));
            }
            top.push(Parsed::List(acc));
            acc = top;
        }
        proof {
            assert(stack_views(stack@).len() == 0);
            lemma_parsed_view_list(acc);
        }
        Ok(Parsed::List(acc))
    }
}

} // verus!
