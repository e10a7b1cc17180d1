//! Function-like expression language.
//!
//! A descriptor is a string of the form `name` or `name(expr,...,expr)`
//! (with an alternate brace-delimited form). This module parses such a
//! string into a borrowed n-ary [`Tree`] after a linear structural
//! pre-scan has validated delimiter matching, trailing characters and
//! nesting depth over the whole input.
//!
//! Verifying and stripping a trailing checksum suffix belongs to an
//! external collaborator and happens before anything here runs: every
//! entry point of this module takes the already-stripped payload, in
//! which `#` is an ordinary name character.

pub mod error;

use vstd::prelude::*;
use vstd::string::StrSliceExecFns;

use crate::Error;
use self::error::ParseTreeError;

verus! {

/// A token of the form `x(...)` or `x`.
///
/// Every node borrows its name from the single original input string; no
/// node copies character data.
#[derive(Debug)]
pub struct Tree<'a> {
    /// The name `x`.
    pub name: &'a str,
    /// The comma-separated contents of the `(...)`, if any.
    pub args: Vec<Tree<'a>>,
}

/// The mathematical shape of a [`Tree`]: a name and an ordered sequence of
/// child shapes.
#[verifier::ext_equal]
pub struct TreeV {
    /// The node's name.
    pub name: Seq<char>,
    /// The node's children, in order.
    pub args: Seq<TreeV>,
}

/// The shape of a single tree node.
pub open spec fn tree_view<'a>(t: Tree<'a>) -> TreeV
    decreases t,
{
    TreeV { name: t.name@, args: trees_view(t.args@) }
}

/// The shapes of a sequence of tree nodes, in order.
pub open spec fn trees_view<'a>(ts: Seq<Tree<'a>>) -> Seq<TreeV>
    decreases ts,
{
    if ts.len() == 0 {
        Seq::empty()
    } else {
        seq![tree_view(ts[0])] + trees_view(ts.drop_first())
    }
}

impl<'a> View for Tree<'a> {
    type V = TreeV;

    open spec fn view(&self) -> TreeV {
        tree_view(*self)
    }
}

/// Structural equality of two tree shapes: same name, same arity, and
/// structurally equal children, pairwise.
pub open spec fn tree_eq(a: TreeV, b: TreeV) -> bool
    decreases a,
{
    a.name == b.name && trees_eq(a.args, b.args)
}

/// Pairwise structural equality of two sequences of tree shapes.
pub open spec fn trees_eq(xs: Seq<TreeV>, ys: Seq<TreeV>) -> bool
    decreases xs,
{
    if xs.len() != ys.len() {
        false
    } else if xs.len() == 0 {
        true
    } else {
        tree_eq(xs[0], ys[0]) && trees_eq(xs.drop_first(), ys.drop_first())
    }
}

/// Sequence equality is equivalent to equal length plus pairwise equality.
proof fn lemma_trees_eq_pointwise(xs: Seq<TreeV>, ys: Seq<TreeV>)
    ensures
        trees_eq(xs, ys) <==> (xs.len() == ys.len() && forall|i: int|
            0 <= i < xs.len() ==> #[trigger] tree_eq(xs[i], ys[i])),
    decreases xs,
{
    if xs.len() == ys.len() && xs.len() > 0 {
        lemma_trees_eq_pointwise(xs.drop_first(), ys.drop_first());
        if trees_eq(xs, ys) {
            assert forall|i: int| 0 <= i < xs.len() implies #[trigger] tree_eq(xs[i], ys[i]) by {
                if i > 0 {
                    assert(tree_eq(xs.drop_first()[i - 1], ys.drop_first()[i - 1]));
                    assert(xs.drop_first()[i - 1] == xs[i]);
                    assert(ys.drop_first()[i - 1] == ys[i]);
                }
            }
        }
        if forall|i: int| 0 <= i < xs.len() ==> #[trigger] tree_eq(xs[i], ys[i]) {
            assert forall|i: int| 0 <= i < xs.drop_first().len() implies #[trigger] tree_eq(
                xs.drop_first()[i],
                ys.drop_first()[i],
            ) by {
                assert(xs.drop_first()[i] == xs[i + 1]);
                assert(ys.drop_first()[i] == ys[i + 1]);
                assert(tree_eq(xs[i + 1], ys[i + 1]));
            }
            assert(trees_eq(xs.drop_first(), ys.drop_first()));
            assert(tree_eq(xs[0], ys[0]));
        }
    }
}

/// Structural equality of shapes coincides with equality of shapes.
pub proof fn lemma_tree_eq_iff(a: TreeV, b: TreeV)
    ensures
        tree_eq(a, b) <==> a == b,
    decreases a,
{
    lemma_trees_eq_pointwise(a.args, b.args);
    if tree_eq(a, b) {
        assert forall|i: int| 0 <= i < a.args.len() implies a.args[i] == b.args[i] by {
            assert(tree_eq(a.args[i], b.args[i]));
            lemma_tree_eq_iff(a.args[i], b.args[i]);
        }
        assert(a.args =~= b.args);
        assert(a =~~= b);
    }
    if a == b {
        assert forall|i: int| 0 <= i < a.args.len() implies #[trigger] tree_eq(
            a.args[i],
            b.args[i],
        ) by {
            lemma_tree_eq_iff(a.args[i], b.args[i]);
        }
    }
}

/// Structural equality of tree shapes is reflexive.
pub proof fn lemma_tree_eq_reflexive(a: TreeV)
    ensures
        tree_eq(a, a),
{
    lemma_tree_eq_iff(a, a);
}

/// Structural equality of tree shapes is symmetric.
pub proof fn lemma_tree_eq_symmetric(a: TreeV, b: TreeV)
    ensures
        tree_eq(a, b) == tree_eq(b, a),
{
    lemma_tree_eq_iff(a, b);
    lemma_tree_eq_iff(b, a);
}

/// The number of nodes of a tree shape, the whole tree counted.
pub open spec fn tree_size(t: TreeV) -> nat
    decreases t,
{
    1 + trees_size(t.args)
}

/// The total number of nodes of a sequence of tree shapes.
pub open spec fn trees_size(ts: Seq<TreeV>) -> nat
    decreases ts,
{
    if ts.len() == 0 {
        0nat
    } else {
        tree_size(ts[0]) + trees_size(ts.drop_first())
    }
}

/// Taking one more element adds exactly its size.
proof fn lemma_trees_size_take_succ(ts: Seq<TreeV>, i: int)
    requires
        0 <= i < ts.len(),
    ensures
        trees_size(ts.take(i + 1)) == trees_size(ts.take(i)) + tree_size(ts[i]),
    decreases i,
{
    if i == 0 {
        reveal_with_fuel(trees_size, 3);
        assert(ts.take(1).drop_first() =~= Seq::<TreeV>::empty());
        assert(ts.take(0) =~= Seq::<TreeV>::empty());
    } else {
        lemma_trees_size_take_succ(ts.drop_first(), i - 1);
        assert(ts.take(i + 1).drop_first() =~= ts.drop_first().take(i));
        assert(ts.take(i).drop_first() =~= ts.drop_first().take(i - 1));
        assert(ts.take(i + 1)[0] == ts[0]);
        assert(ts.take(i)[0] == ts[0]);
        assert(ts.drop_first()[i - 1] == ts[i]);
    }
}

/// The total size of the worklist: the sizes of the left-hand trees of its
/// pending pairs.
pub open spec fn stack_measure<'x, 'a>(st: Seq<(&'x Tree<'a>, &'x Tree<'a>)>) -> nat
    decreases st,
{
    if st.len() == 0 {
        0nat
    } else {
        tree_size(st[0].0@) + stack_measure(st.drop_first())
    }
}

/// Pushing a pair adds exactly the size of its left-hand tree.
proof fn lemma_stack_measure_push<'x, 'a>(
    st: Seq<(&'x Tree<'a>, &'x Tree<'a>)>,
    p: (&'x Tree<'a>, &'x Tree<'a>),
)
    ensures
        stack_measure(st.push(p)) == stack_measure(st) + tree_size(p.0@),
    decreases st,
{
    if st.len() == 0 {
        reveal_with_fuel(stack_measure, 3);
        assert(st.push(p).drop_first() =~= Seq::<(&'x Tree<'a>, &'x Tree<'a>)>::empty());
        assert(st.push(p)[0] == p);
    } else {
        assert(st.push(p).drop_first() =~= st.drop_first().push(p));
        lemma_stack_measure_push(st.drop_first(), p);
        assert(st.push(p)[0] == st[0]);
    }
}

/// Every pending pair of the worklist relates structurally equal shapes.
pub open spec fn pairs_ok<'x, 'a>(st: Seq<(&'x Tree<'a>, &'x Tree<'a>)>) -> bool {
    forall|i: int| 0 <= i < st.len() ==> #[trigger] tree_eq(st[i].0@, st[i].1@)
}

/// The length of a sequence of shapes equals that of the trees it views.
proof fn lemma_trees_view_len<'a>(ts: Seq<Tree<'a>>)
    ensures
        trees_view(ts).len() == ts.len(),
    decreases ts,
{
    if ts.len() > 0 {
        lemma_trees_view_len(ts.drop_first());
    }
}

/// The shape sequence views each tree pointwise.
proof fn lemma_trees_view_index<'a>(ts: Seq<Tree<'a>>, i: int)
    requires
        0 <= i < ts.len(),
    ensures
        trees_view(ts).len() == ts.len(),
        trees_view(ts)[i] == tree_view(ts[i]),
    decreases i,
{
    lemma_trees_view_len(ts);
    if i == 0 {
    } else {
        lemma_trees_view_index(ts.drop_first(), i - 1);
        assert(ts.drop_first()[i - 1] == ts[i]);
    }
}

/// Compares two strings character by character.
fn str_eq(a: &str, b: &str) -> (r: bool)
    ensures
        r == (a@ == b@),
{
    let la = a.unicode_len();
    let lb = b.unicode_len();
    if la != lb {
        return false;
    }
    let mut i: usize = 0;
    while i < la
        invariant
            la == a@.len(),
            la == b@.len(),
            0 <= i <= la,
            forall|j: int| 0 <= j < i ==> a@[j] == b@[j],
        decreases la - i,
    {
        if a.get_char(i) != b.get_char(i) {
            return false;
        }
        i += 1;
    }
    proof {
        assert(a@ =~= b@);
    }
    true
}

impl<'a> PartialEq for Tree<'a> {
    /// Structural equality, computed iteratively over an explicit worklist
    /// of pending node pairs, so that adversarially deep trees cannot
    /// overflow the call stack.
    fn eq(&self, other: &Self) -> (r: bool) {
        let mut stack: Vec<(&Tree<'a>, &Tree<'a>)> = Vec::new();
        stack.push((self, other));
        proof {
            assert(stack@[0] == (self, other));
            if tree_eq(self@, other@) {
                assert forall|i: int| 0 <= i < stack@.len() implies #[trigger] tree_eq(
                    stack@[i].0@,
                    stack@[i].1@,
                ) by {
                    assert(stack@[i] == (self, other));
                }
            }
            if pairs_ok(stack@) {
                assert(tree_eq(stack@[0].0@, stack@[0].1@));
            }
        }
        loop
            invariant
                tree_eq(self@, other@) <==> pairs_ok(stack@),
            decreases stack_measure(stack@),
        {
            let ghost prev_stack = stack@;
            match stack.pop() {
                None => {
                    proof {
                        lemma_tree_eq_iff(self@, other@);
                    }
                    return true;
                },
                Some((a, b)) => {
                    proof {
                        assert(prev_stack =~= stack@.push((a, b)));
                        lemma_stack_measure_push(stack@, (a, b));
                        assert forall|i: int| 0 <= i < stack@.len() implies stack@[i]
                            == prev_stack[i] by {}
                        lemma_tree_eq_iff(self@, other@);
                        lemma_trees_view_len(a.args@);
                        lemma_trees_view_len(b.args@);
                        lemma_trees_eq_pointwise(a@.args, b@.args);
                        if pairs_ok(stack@) && tree_eq(a@, b@) {
                            assert forall|i: int| 0 <= i < prev_stack.len() implies
                                #[trigger] tree_eq(prev_stack[i].0@, prev_stack[i].1@) by {
                                if i < stack@.len() {
                                    assert(tree_eq(stack@[i].0@, stack@[i].1@));
                                }
                            }
                        }
                    }
                    if !str_eq(a.name, b.name) {
                        proof {
                            assert(!tree_eq(a@, b@));
                            assert(!pairs_ok(prev_stack)) by {
                                assert(prev_stack.last() == (a, b));
                            }
                        }
                        return false;
                    }
                    if a.args.len() != b.args.len() {
                        proof {
                            assert(!tree_eq(a@, b@));
                            assert(!pairs_ok(prev_stack)) by {
                                assert(prev_stack.last() == (a, b));
                            }
                        }
                        return false;
                    }
                    let ghost base = stack@;
                    let n = a.args.len();
                    let mut i: usize = 0;
                    while i < n
                        invariant
                            0 <= i <= n,
                            n == a.args@.len(),
                            n == b.args@.len(),
                            a@.args.len() == n,
                            b@.args.len() == n,
                            a@.name == b@.name,
                            stack@.len() == base.len() + i,
                            forall|j: int| 0 <= j < base.len() ==> stack@[j] == base[j],
                            forall|j: int|
                                0 <= j < i ==> #[trigger] stack@[base.len() + j]
                                    == (&a.args[j], &b.args[j]),
                            stack_measure(stack@) == stack_measure(base) + trees_size(
                                a@.args.take(i as int),
                            ),
                        decreases n - i,
                    {
                        let ghost before = stack@;
                        let pair = (&a.args[i], &b.args[i]);
                        stack.push(pair);
                        proof {
                            lemma_stack_measure_push(before, pair);
                            lemma_trees_view_index(a.args@, i as int);
                            lemma_trees_size_take_succ(a@.args, i as int);
                        }
                        i += 1;
                    }
                    proof {
                        assert(a@.args.take(n as int) =~= a@.args);
                        // The popped pair's obligation is replaced by one
                        // obligation per child pair.
                        lemma_trees_eq_pointwise(a@.args, b@.args);
                        assert forall|j: int| 0 <= j < n implies (#[trigger] stack@[base.len()
                            + j].0@ == a@.args[j] && stack@[base.len() + j].1@ == b@.args[j]) by {
                            lemma_trees_view_index(a.args@, j);
                            lemma_trees_view_index(b.args@, j);
                        }
                        if pairs_ok(stack@) {
                            assert forall|j: int| 0 <= j < n implies #[trigger] tree_eq(
                                a@.args[j],
                                b@.args[j],
                            ) by {
                                assert(tree_eq(stack@[base.len() + j].0@, stack@[base.len()
                                    + j].1@));
                            }
                            assert(tree_eq(a@, b@));
                            assert forall|j: int| 0 <= j < prev_stack.len() implies
                                #[trigger] tree_eq(prev_stack[j].0@, prev_stack[j].1@) by {
                                if j < base.len() {
                                    assert(stack@[j] == base[j]);
                                    assert(prev_stack[j] == base[j]);
                                    assert(tree_eq(stack@[j].0@, stack@[j].1@));
                                } else {
                                    assert(prev_stack[j] == (a, b));
                                }
                            }
                        }
                        if pairs_ok(prev_stack) {
                            assert(prev_stack[prev_stack.len() - 1] == (a, b));
                            assert(tree_eq(
                                prev_stack[prev_stack.len() - 1].0@,
                                prev_stack[prev_stack.len() - 1].1@,
                            ));
                            assert(tree_eq(a@, b@));
                            assert forall|j: int| 0 <= j < stack@.len() implies #[trigger] tree_eq(
                                stack@[j].0@,
                                stack@[j].1@,
                            ) by {
                                if j < base.len() {
                                    assert(stack@[j] == base[j]);
                                    assert(prev_stack[j] == base[j]);
                                    assert(tree_eq(prev_stack[j].0@, prev_stack[j].1@));
                                } else {
                                    let jj = j - base.len();
                                    assert(stack@[base.len() + jj].0@ == a@.args[jj]);
                                    assert(stack@[base.len() + jj].1@ == b@.args[jj]);
                                    assert(tree_eq(a@.args[jj], b@.args[jj]));
                                }
                            }
                        }
                        assert(stack_measure(stack@) < stack_measure(prev_stack));
                    }
                },
            }
        }
    }
}

impl<'a> Eq for Tree<'a> {

}

impl<'a> vstd::std_specs::cmp::PartialEqSpecImpl for Tree<'a> {
    open spec fn obeys_eq_spec() -> bool {
        true
    }

    open spec fn eq_spec(&self, other: &Self) -> bool {
        self@ == other@
    }
}

/// A trait for extracting a structure from a [`Tree`] representation in
/// token form. Implemented by node types outside this crate; the arity
/// combinators [`unary`] and [`binary`] drive it.
pub trait FromTree: Sized {
    /// Extract a structure from a [`Tree`] representation.
    fn from_tree(top: &Tree<'_>) -> Result<Self, Error>;
}

/// Builds the catch-all "unexpected token" error for a token description.
pub(crate) fn errstr(s: &str) -> (r: Error)
    ensures
        r matches Error::Unexpected(m) && m@ == s@,
{
    Error::Unexpected(s.to_owned())
}

/// Whether a character is a decimal digit.
pub open spec fn is_digit(c: char) -> bool {
    '0' <= c && c <= '9'
}

/// The numeric value of a decimal digit.
pub open spec fn digit_val(c: char) -> int {
    c as int - '0' as int
}

/// The value of a digit string read in base 10.
pub open spec fn num_value(s: Seq<char>) -> int
    decreases s.len(),
{
    if s.len() == 0 {
        0
    } else {
        num_value(s.drop_last()) * 10 + digit_val(s.last())
    }
}

/// Whether a string is a canonical decimal representation of a `u32`:
/// a single digit, or a multi-digit string with no leading zero, whose
/// value fits. Signs are never accepted.
pub open spec fn valid_num_str(s: Seq<char>) -> bool {
    &&& s.len() > 0
    &&& forall|i: int| 0 <= i < s.len() ==> is_digit(#[trigger] s[i])
    &&& (s.len() > 1 ==> '1' <= s[0] && s[0] <= '9')
    &&& num_value(s) <= u32::MAX
}

/// The value of a digit string is never negative.
proof fn lemma_num_value_nonneg(s: Seq<char>)
    requires
        forall|i: int| 0 <= i < s.len() ==> is_digit(#[trigger] s[i]),
    ensures
        num_value(s) >= 0,
    decreases s.len(),
{
    if s.len() > 0 {
        lemma_num_value_nonneg(s.drop_last());
    }
}

/// Extending a digit string on the right can only grow its value.
proof fn lemma_num_value_prefix_le(s: Seq<char>, i: int)
    requires
        forall|j: int| 0 <= j < s.len() ==> is_digit(#[trigger] s[j]),
        0 <= i <= s.len(),
    ensures
        num_value(s.take(i)) <= num_value(s),
    decreases s.len() - i,
{
    if i < s.len() {
        lemma_num_value_prefix_le(s, i + 1);
        let t = s.take(i + 1);
        assert(t.drop_last() =~= s.take(i));
        lemma_num_value_nonneg(s.take(i));
    } else {
        assert(s.take(i) =~= s);
    }
}

/// Whether a character belongs to the allowed descriptor character set.
/// The set is exactly the printable ASCII characters, space included.
pub open spec fn allowed_char(c: char) -> bool {
    ' ' <= c && c <= '~'
}

/// The character-set gate, scanning left to right from `pos` and reporting
/// the first character outside the allowed set.
pub open spec fn charset_check(s: Seq<char>, pos: int) -> Result<(), ParseTreeError>
    decreases s.len() - pos,
{
    if pos < 0 || pos >= s.len() {
        Ok(())
    } else if !allowed_char(s[pos]) {
        Err(ParseTreeError::InvalidCharacter { ch: s[pos], pos: pos as usize })
    } else {
        charset_check(s, pos + 1)
    }
}

/// One position of the structural scan, carried out from `pos` with the
/// stack of currently open delimiters (each with its position) and the
/// largest stack height seen so far.
///
/// This function is the reference meaning of the pre-scan: which error the
/// scan reports, at which position, or that the input is structurally well
/// formed and within the depth bound.
pub open spec fn pre_check_scan(
    s: Seq<char>,
    open: char,
    close: char,
    pos: int,
    stack: Seq<(char, usize)>,
    max_depth: int,
) -> Result<(), ParseTreeError>
    decreases s.len() - pos,
{
    if pos < 0 || pos >= s.len() {
        if stack.len() > 0 {
            // The scan ran out of input with delimiters still open: the
            // outermost unclosed opener is reported.
            Err(ParseTreeError::UnmatchedOpenParen {
                ch: stack[0].0,
                pos: stack[0].1,
            })
        } else if max_depth > crate::MAX_RECURSION_DEPTH as int {
            Err(ParseTreeError::MaxRecursionDepthExceeded {
                actual: max_depth as usize,
                maximum: crate::MAX_RECURSION_DEPTH,
            })
        } else {
            Ok(())
        }
    } else {
        let ch = s[pos];
        if ch == open {
            let pushed = stack.push((ch, pos as usize));
            let new_max = if max_depth < pushed.len() {
                pushed.len() as int
            } else {
                max_depth
            };
            pre_check_scan(s, open, close, pos + 1, pushed, new_max)
        } else if ch == close {
            if stack.len() == 0 {
                Err(ParseTreeError::UnmatchedCloseParen { ch, pos: pos as usize })
            } else {
                let open_ch = stack.last().0;
                let open_pos = stack.last().1;
                if (open_ch == '(' && ch == '}') || (open_ch == '{' && ch == ')') {
                    Err(ParseTreeError::MismatchedParens {
                        open_ch,
                        open_pos,
                        close_ch: ch,
                        close_pos: pos as usize,
                    })
                } else if stack.len() >= 2 {
                    // Not the outermost delimiter: the expression goes on, so
                    // this must not be the end of the string, and the next
                    // byte must continue or close an argument list.
                    if pos == s.len() - 1 {
                        Err(ParseTreeError::UnmatchedOpenParen {
                            ch: stack[stack.len() - 2].0,
                            pos: stack[stack.len() - 2].1,
                        })
                    } else if s[pos + 1] != ')' && s[pos + 1] != '}' && s[pos + 1] != ',' {
                        Err(ParseTreeError::ExpectedParenOrComma {
                            ch: s[pos + 1],
                            pos: (pos + 1) as usize,
                        })
                    } else {
                        pre_check_scan(s, open, close, pos + 1, stack.drop_last(), max_depth)
                    }
                } else {
                    // The outermost delimiter was closed: this must be the
                    // end of the string.
                    if pos < s.len() - 1 {
                        Err(ParseTreeError::TrailingCharacter {
                            ch: s[pos + 1],
                            pos: (pos + 1) as usize,
                        })
                    } else {
                        pre_check_scan(s, open, close, pos + 1, stack.drop_last(), max_depth)
                    }
                }
            }
        } else if ch == ',' && stack.len() == 0 {
            // A comma is only meaningful inside a bracketed argument list.
            Err(ParseTreeError::TrailingCharacter { ch, pos: pos as usize })
        } else {
            pre_check_scan(s, open, close, pos + 1, stack, max_depth)
        }
    }
}

/// What the whole pre-check reports on an input: the character-set gate
/// first, then the structural scan from the start.
pub open spec fn pre_check_spec(s: Seq<char>, open: char, close: char) -> Result<
    (),
    ParseTreeError,
> {
    match charset_check(s, 0) {
        Err(e) => Err(e),
        Ok(()) => pre_check_scan(s, open, close, 0, Seq::empty(), 0),
    }
}

/// What a scan for the next structurally significant character found.
#[derive(Debug, Clone, Copy)]
pub enum Found {
    /// No significant character up to the end of the slice.
    Nothing,
    /// A left bracket (`(` or `{`) at the given position.
    LBracket(usize),
    /// A comma at the current syntactic level at the given position.
    Comma(usize),
    /// A right bracket (`)` or `}`) at the given position.
    RBracket(usize),
}

/// The scan in parenthesis mode: the first occurrence of `(`, `,` or `)`
/// terminates it. Nested groups are handled by recursive re-slicing after
/// each match, not by depth tracking here.
pub open spec fn next_expr_paren(s: Seq<char>, pos: int) -> Found
    decreases s.len() - pos,
{
    if pos < 0 || pos >= s.len() {
        Found::Nothing
    } else if s[pos] == '(' {
        Found::LBracket(pos as usize)
    } else if s[pos] == ',' {
        Found::Comma(pos as usize)
    } else if s[pos] == ')' {
        Found::RBracket(pos as usize)
    } else {
        next_expr_paren(s, pos + 1)
    }
}

/// The scan in brace mode: parenthesized subexpressions are opaque leaves
/// at this level, so the scan tracks a local parenthesis counter and only a
/// brace or a level-zero comma terminates it.
pub open spec fn next_expr_brace(s: Seq<char>, pos: int, count: int) -> Found
    decreases s.len() - pos,
{
    if pos < 0 || pos >= s.len() {
        Found::Nothing
    } else if s[pos] == '{' {
        Found::LBracket(pos as usize)
    } else if s[pos] == '(' {
        next_expr_brace(s, pos + 1, count + 1)
    } else if s[pos] == ',' {
        if count == 0 {
            Found::Comma(pos as usize)
        } else {
            next_expr_brace(s, pos + 1, count)
        }
    } else if s[pos] == ')' {
        next_expr_brace(s, pos + 1, count - 1)
    } else if s[pos] == '}' {
        Found::RBracket(pos as usize)
    } else {
        next_expr_brace(s, pos + 1, count)
    }
}

/// The next structurally significant character of a slice, for the given
/// delimiter kind.
pub open spec fn next_expr_spec(s: Seq<char>, delim: char) -> Found {
    if delim == '(' {
        next_expr_paren(s, 0)
    } else {
        next_expr_brace(s, 0, 0)
    }
}

/// Any position reported by the parenthesis-mode scan lies in `[pos, len)`.
proof fn lemma_next_paren_pos(s: Seq<char>, pos: int)
    requires
        0 <= pos <= s.len(),
        s.len() <= usize::MAX,
    ensures
        match next_expr_paren(s, pos) {
            Found::Nothing => true,
            Found::LBracket(n) => pos <= n < s.len() && s[n as int] == '(',
            Found::Comma(n) => pos <= n < s.len() && s[n as int] == ',',
            Found::RBracket(n) => pos <= n < s.len() && s[n as int] == ')',
        },
    decreases s.len() - pos,
{
    if pos < s.len() {
        lemma_next_paren_pos(s, pos + 1);
    }
}

/// Any position reported by the brace-mode scan lies in `[pos, len)`.
proof fn lemma_next_brace_pos(s: Seq<char>, pos: int, count: int)
    requires
        0 <= pos <= s.len(),
        s.len() <= usize::MAX,
    ensures
        match next_expr_brace(s, pos, count) {
            Found::Nothing => true,
            Found::LBracket(n) => pos <= n < s.len() && s[n as int] == '{',
            Found::Comma(n) => pos <= n < s.len() && s[n as int] == ',',
            Found::RBracket(n) => pos <= n < s.len() && s[n as int] == '}',
        },
    decreases s.len() - pos,
{
    if pos < s.len() {
        lemma_next_brace_pos(s, pos + 1, count + 1);
        lemma_next_brace_pos(s, pos + 1, count);
        lemma_next_brace_pos(s, pos + 1, count - 1);
    }
}

/// Any position reported by the scan lies within the slice, on the
/// character the variant names.
pub proof fn lemma_next_expr_pos(s: Seq<char>, delim: char)
    requires
        s.len() <= usize::MAX,
    ensures
        match next_expr_spec(s, delim) {
            Found::Nothing => true,
            Found::LBracket(n) => 0 <= n < s.len(),
            Found::Comma(n) => 0 <= n < s.len() && s[n as int] == ',',
            Found::RBracket(n) => 0 <= n < s.len(),
        },
{
    if delim == '(' {
        lemma_next_paren_pos(s, 0);
    } else {
        lemma_next_brace_pos(s, 0, 0);
    }
}

/// A single forward scan for the next structurally significant character at
/// the current syntactic level.
fn next_expr(sl: &str, delim: char) -> (r: Found)
    requires
        delim == '(' || delim == '{',
    ensures
        r == next_expr_spec(sl@, delim),
{
    let len = sl.unicode_len();
    if delim == '(' {
        let mut pos: usize = 0;
        while pos < len
            invariant
                delim == '(',
                len == sl@.len(),
                0 <= pos <= len,
                next_expr_paren(sl@, 0) == next_expr_paren(sl@, pos as int),
            decreases len - pos,
        {
            let ch = sl.get_char(pos);
            if ch == '(' {
                return Found::LBracket(pos);
            } else if ch == ',' {
                return Found::Comma(pos);
            } else if ch == ')' {
                return Found::RBracket(pos);
            }
            pos += 1;
        }
        Found::Nothing
    } else {
        let mut count: i128 = 0;
        let mut pos: usize = 0;
        while pos < len
            invariant
                delim == '{',
                len == sl@.len(),
                0 <= pos <= len,
                -(pos as int) <= count <= pos as int,
                next_expr_brace(sl@, 0, 0) == next_expr_brace(sl@, pos as int, count as int),
            decreases len - pos,
        {
            let ch = sl.get_char(pos);
            if ch == '{' {
                return Found::LBracket(pos);
            } else if ch == '(' {
                count = count + 1;
            } else if ch == ',' {
                if count == 0 {
                    return Found::Comma(pos);
                }
            } else if ch == ')' {
                count = count - 1;
            } else if ch == '}' {
                return Found::RBracket(pos);
            }
            pos += 1;
        }
        Found::Nothing
    }
}

/// The closing delimiter of an opening one.
pub open spec fn closing_delim_spec(delim: char) -> char {
    if delim == '(' {
        ')'
    } else {
        '}'
    }
}

/// Get the corresponding closing delimiter.
fn closing_delim(delim: char) -> (r: char)
    requires
        delim == '(' || delim == '{',
    ensures
        r == closing_delim_spec(delim),
{
    if delim == '(' {
        ')'
    } else {
        '}'
    }
}

/// The reference meaning of parsing one expression from the front of a
/// slice: the parsed shape and the number of characters consumed, or
/// nothing if the slice has no expression of the grammar at its front.
pub open spec fn parse_expr_spec(s: Seq<char>, delim: char) -> Option<(TreeV, int)>
    decreases s.len(), 0int,
{
    match next_expr_spec(s, delim) {
        Found::Nothing => Some((TreeV { name: s, args: Seq::empty() }, s.len() as int)),
        Found::Comma(n) => Some((TreeV { name: s.take(n as int), args: Seq::empty() }, n as int)),
        Found::RBracket(n) => Some(
            (TreeV { name: s.take(n as int), args: Seq::empty() }, n as int),
        ),
        Found::LBracket(n) => {
            if (n as int) < s.len() {
                match parse_args_spec(s.skip(n + 1), delim) {
                    None => None,
                    Some((args, used)) => Some(
                        (TreeV { name: s.take(n as int), args }, n + 1 + used),
                    ),
                }
            } else {
                None
            }
        },
    }
}

/// The reference meaning of parsing a comma-separated argument list from
/// the front of a slice, up to and including the closing delimiter: the
/// parsed shapes and the number of characters consumed.
pub open spec fn parse_args_spec(s: Seq<char>, delim: char) -> Option<(Seq<TreeV>, int)>
    decreases s.len(), 1int,
{
    match parse_expr_spec(s, delim) {
        None => None,
        Some((t, used)) => {
            if 0 <= used && used < s.len() {
                if s[used] == ',' {
                    match parse_args_spec(s.skip(used + 1), delim) {
                        None => None,
                        Some((rest, used2)) => Some((seq![t] + rest, used + 1 + used2)),
                    }
                } else if s[used] == closing_delim_spec(delim) {
                    Some((seq![t], used + 1))
                } else {
                    None
                }
            } else {
                None
            }
        },
    }
}

/// Parsing consumes between zero (one, for an argument list) and all of
/// the characters of the slice.
pub proof fn lemma_parse_bounds(s: Seq<char>, delim: char)
    requires
        s.len() <= usize::MAX,
    ensures
        parse_expr_spec(s, delim) matches Some(p) ==> 0 <= p.1 <= s.len(),
        parse_args_spec(s, delim) matches Some(q) ==> 1 <= q.1 <= s.len(),
    decreases s.len(),
{
    lemma_next_expr_pos(s, delim);
    match next_expr_spec(s, delim) {
        Found::LBracket(n) => {
            if (n as int) < s.len() {
                lemma_parse_bounds(s.skip(n + 1), delim);
            }
        },
        _ => {},
    }
    match parse_expr_spec(s, delim) {
        Some((t, u)) => {
            if 0 <= u && u < s.len() && s[u] == ',' {
                lemma_parse_bounds(s.skip(u + 1), delim);
            }
        },
        None => {},
    }
}

/// The shapes of a pushed-onto sequence of trees.
proof fn lemma_trees_view_push<'a>(ts: Seq<Tree<'a>>, t: Tree<'a>)
    ensures
        trees_view(ts.push(t)) == trees_view(ts) + seq![tree_view(t)],
    decreases ts.len(),
{
    if ts.len() == 0 {
        reveal_with_fuel(trees_view, 3);
        assert(ts.push(t).drop_first() =~= Seq::<Tree<'a>>::empty());
        assert(ts.push(t)[0] == t);
        assert(trees_view(ts.push(t)) =~= trees_view(ts) + seq![tree_view(t)]);
    } else {
        assert(ts.push(t).drop_first() =~= ts.drop_first().push(t));
        lemma_trees_view_push(ts.drop_first(), t);
        assert(trees_view(ts.push(t)) =~= trees_view(ts) + seq![tree_view(t)]);
    }
}

impl<'a> Tree<'a> {
    /// Check that a string is a well-formed expression string: every
    /// character allowed, every delimiter matched, nothing after the
    /// outermost closer, nesting depth within the fixed maximum.
    ///
    /// Verifying and stripping a trailing checksum suffix belongs to an
    /// external collaborator and runs before this check: the input here is
    /// the already-stripped payload, in which `#` is an ordinary name
    /// character.
    fn parse_pre_check(s: &str, open: char, close: char) -> (r: Result<(), ParseTreeError>)
        ensures
            r == pre_check_spec(s@, open, close),
            r is Ok ==> s.is_ascii(),
    {
        let len = s.unicode_len();
        let mut i: usize = 0;
        while i < len
            invariant
                len == s@.len(),
                0 <= i <= len,
                forall|j: int| 0 <= j < i ==> allowed_char(#[trigger] s@[j]),
                charset_check(s@, 0) == charset_check(s@, i as int),
            decreases len - i,
        {
            let c = s.get_char(i);
            if !(' ' <= c && c <= '~') {
                return Err(ParseTreeError::InvalidCharacter { ch: c, pos: i });
            }
            i += 1;
        }
        proof {
            assert(s.is_ascii()) by {
                assert(forall|j: int|
                    0 <= j < s@.len() ==> '\0' <= #[trigger] s@[j] <= '\u{7f}');
            }
        }

        let mut max_depth: usize = 0;
        let mut open_stack: Vec<(char, usize)> = Vec::new();
        let mut pos: usize = 0;
        while pos < len
            invariant
                len == s@.len(),
                0 <= pos <= len,
                open_stack@.len() <= pos,
                max_depth <= len,
                charset_check(s@, 0) is Ok,
                pre_check_scan(s@, open, close, 0, Seq::empty(), 0) == pre_check_scan(
                    s@,
                    open,
                    close,
                    pos as int,
                    open_stack@,
                    max_depth as int,
                ),
            decreases len - pos,
        {
            let ch = s.get_char(pos);
            if ch == open {
                open_stack.push((ch, pos));
                if max_depth < open_stack.len() {
                    max_depth = open_stack.len();
                }
            } else if ch == close {
                match open_stack.pop() {
                    None => {
                        return Err(ParseTreeError::UnmatchedCloseParen { ch, pos });
                    },
                    Some((open_ch, open_pos)) => {
                        if (open_ch == '(' && ch == '}') || (open_ch == '{' && ch == ')') {
                            return Err(ParseTreeError::MismatchedParens {
                                open_ch,
                                open_pos,
                                close_ch: ch,
                                close_pos: pos,
                            });
                        }
                        if open_stack.len() > 0 {
                            if pos == len - 1 {
                                let top = open_stack[open_stack.len() - 1];
                                return Err(ParseTreeError::UnmatchedOpenParen {
                                    ch: top.0,
                                    pos: top.1,
                                });
                            } else {
                                let next = s.get_char(pos + 1);
                                if next != ')' && next != '}' && next != ',' {
                                    return Err(ParseTreeError::ExpectedParenOrComma {
                                        ch: next,
                                        pos: pos + 1,
                                    });
                                }
                            }
                        } else {
                            if pos < len - 1 {
                                return Err(ParseTreeError::TrailingCharacter {
                                    ch: s.get_char(pos + 1),
                                    pos: pos + 1,
                                });
                            }
                        }
                    },
                }
            } else if ch == ',' && open_stack.len() == 0 {
                return Err(ParseTreeError::TrailingCharacter { ch, pos });
            }
            pos += 1;
        }
        if open_stack.len() > 0 {
            // Delimiters still open at end of input: report the outermost
            // unclosed opener.
            let first = open_stack[0];
            return Err(ParseTreeError::UnmatchedOpenParen { ch: first.0, pos: first.1 });
        }
        if max_depth > crate::MAX_RECURSION_DEPTH as usize {
            return Err(ParseTreeError::MaxRecursionDepthExceeded {
                actual: max_depth,
                maximum: crate::MAX_RECURSION_DEPTH,
            });
        }
        Ok(())
    }
}


/// The character-set gate only ever reports a disallowed character, at a
/// position that holds one.
proof fn lemma_charset_err_shape(s: Seq<char>, pos: int)
    requires
        0 <= pos <= s.len(),
        s.len() <= usize::MAX,
    ensures
        match charset_check(s, pos) {
            Err(ParseTreeError::InvalidCharacter { ch, pos: p }) => p < s.len() && s[p as int] == ch
                && !allowed_char(ch),
            Err(_) => false,
            Ok(()) => true,
        },
    decreases s.len() - pos,
{
    if pos < s.len() && allowed_char(s[pos]) {
        lemma_charset_err_shape(s, pos + 1);
    }
}

/// Any unmatched-delimiter error of the scan points at a real delimiter of
/// the scanned family, inside the input.
proof fn lemma_scan_err_positions(
    s: Seq<char>,
    open: char,
    close: char,
    pos: int,
    stack: Seq<(char, usize)>,
    max_depth: int,
)
    requires
        0 <= pos <= s.len(),
        s.len() <= usize::MAX,
        forall|j: int|
            0 <= j < stack.len() ==> (#[trigger] stack[j]).0 == open && stack[j].1 < pos
                && s[stack[j].1 as int] == open,
    ensures
        match pre_check_scan(s, open, close, pos, stack, max_depth) {
            Err(ParseTreeError::UnmatchedOpenParen { ch, pos: p }) => ch == open && p < s.len()
                && s[p as int] == open,
            Err(ParseTreeError::UnmatchedCloseParen { ch, pos: p }) => ch == close && p < s.len()
                && s[p as int] == close,
            _ => true,
        },
    decreases s.len() - pos,
{
    if 0 <= pos < s.len() {
        let ch = s[pos];
        if ch == open {
            let pushed = stack.push((ch, pos as usize));
            let new_max = if max_depth < pushed.len() {
                pushed.len() as int
            } else {
                max_depth
            };
            assert forall|j: int|
                0 <= j < pushed.len() implies (#[trigger] pushed[j]).0 == open && pushed[j].1 < pos
                + 1 && s[pushed[j].1 as int] == open by {
                if j < stack.len() {
                    assert(pushed[j] == stack[j]);
                }
            }
            lemma_scan_err_positions(s, open, close, pos + 1, pushed, new_max);
        } else if ch == close {
            if stack.len() > 0 {
                let open_ch = stack.last().0;
                if !((open_ch == '(' && ch == '}') || (open_ch == '{' && ch == ')')) {
                    if stack.len() >= 2 {
                        if pos < s.len() - 1 && (s[pos + 1] == ')' || s[pos + 1] == '}' || s[pos
                            + 1] == ',') {
                            lemma_scan_err_positions(
                                s,
                                open,
                                close,
                                pos + 1,
                                stack.drop_last(),
                                max_depth,
                            );
                        }
                    } else {
                        if pos >= s.len() - 1 {
                            lemma_scan_err_positions(
                                s,
                                open,
                                close,
                                pos + 1,
                                stack.drop_last(),
                                max_depth,
                            );
                        }
                    }
                }
            }
        } else if ch == ',' && stack.len() == 0 {
        } else {
            lemma_scan_err_positions(s, open, close, pos + 1, stack, max_depth);
        }
    }
}

/// Whenever the pre-check reports an unmatched opening delimiter, the
/// reported position holds an opening delimiter of the scanned family, and
/// likewise for an unmatched closing delimiter. This holds of every input,
/// whatever else the input contains.
pub proof fn lemma_unmatched_delim_reported(s: Seq<char>, open: char, close: char)
    requires
        s.len() <= usize::MAX,
    ensures
        pre_check_spec(s, open, close) matches Err(ParseTreeError::UnmatchedOpenParen {
            ch,
            pos,
        }) ==> ch == open && pos < s.len() && s[pos as int] == open,
        pre_check_spec(s, open, close) matches Err(ParseTreeError::UnmatchedCloseParen {
            ch,
            pos,
        }) ==> ch == close && pos < s.len() && s[pos as int] == close,
{
    lemma_charset_err_shape(s, 0);
    lemma_scan_err_positions(s, open, close, 0, Seq::empty(), 0);
}

/// A depth error always carries the fixed maximum and a measured depth
/// strictly above it.
proof fn lemma_scan_depth_error(
    s: Seq<char>,
    open: char,
    close: char,
    pos: int,
    stack: Seq<(char, usize)>,
    max_depth: int,
)
    requires
        0 <= pos <= s.len(),
        s.len() <= usize::MAX,
        stack.len() <= pos,
        0 <= max_depth <= pos,
    ensures
        match pre_check_scan(s, open, close, pos, stack, max_depth) {
            Err(ParseTreeError::MaxRecursionDepthExceeded { actual, maximum }) => maximum
                == crate::MAX_RECURSION_DEPTH && actual > crate::MAX_RECURSION_DEPTH as usize
                && actual <= s.len(),
            _ => true,
        },
    decreases s.len() - pos,
{
    if 0 <= pos < s.len() {
        let ch = s[pos];
        if ch == open {
            let pushed = stack.push((ch, pos as usize));
            let new_max = if max_depth < pushed.len() {
                pushed.len() as int
            } else {
                max_depth
            };
            lemma_scan_depth_error(s, open, close, pos + 1, pushed, new_max);
        } else if ch == close {
            if stack.len() > 0 {
                let open_ch = stack.last().0;
                if !((open_ch == '(' && ch == '}') || (open_ch == '{' && ch == ')')) {
                    if stack.len() >= 2 {
                        if pos < s.len() - 1 && (s[pos + 1] == ')' || s[pos + 1] == '}' || s[pos
                            + 1] == ',') {
                            lemma_scan_depth_error(
                                s,
                                open,
                                close,
                                pos + 1,
                                stack.drop_last(),
                                max_depth,
                            );
                        }
                    } else {
                        if pos >= s.len() - 1 {
                            lemma_scan_depth_error(
                                s,
                                open,
                                close,
                                pos + 1,
                                stack.drop_last(),
                                max_depth,
                            );
                        }
                    }
                }
            }
        } else if ch == ',' && stack.len() == 0 {
        } else {
            lemma_scan_depth_error(s, open, close, pos + 1, stack, max_depth);
        }
    }
}

/// Whenever the pre-check reports that the nesting depth was exceeded, the
/// reported maximum is the fixed bound and the measured depth lies
/// strictly above it, at most the input length. The structural scan runs
/// first, so a depth error also means the input was otherwise well formed.
pub proof fn lemma_depth_error_reported(s: Seq<char>, open: char, close: char)
    requires
        s.len() <= usize::MAX,
    ensures
        pre_check_spec(s, open, close) matches Err(ParseTreeError::MaxRecursionDepthExceeded {
            actual,
            maximum,
        }) ==> maximum == crate::MAX_RECURSION_DEPTH && actual > crate::MAX_RECURSION_DEPTH as usize
            && actual <= s.len(),
{
    lemma_charset_err_shape(s, 0);
    lemma_scan_depth_error(s, open, close, 0, Seq::empty(), 0);
}


/// The text of a tree shape under a delimiter family: the bare name for a
/// childless node, and otherwise the name followed by the bracketed,
/// comma-separated texts of the children.
pub open spec fn repr(t: TreeV, delim: char) -> Seq<char>
    decreases t,
{
    if t.args.len() == 0 {
        t.name
    } else {
        t.name + seq![delim] + args_repr(t.args, delim) + seq![closing_delim_spec(delim)]
    }
}

/// The comma-separated texts of a sequence of tree shapes.
pub open spec fn args_repr(args: Seq<TreeV>, delim: char) -> Seq<char>
    decreases args,
{
    if args.len() == 0 {
        Seq::empty()
    } else if args.len() == 1 {
        repr(args[0], delim)
    } else {
        repr(args[0], delim) + seq![','] + args_repr(args.drop_first(), delim)
    }
}

/// The scan's bracket reports sit on the delimiters of the scanned family.
proof fn lemma_next_expr_char(s: Seq<char>, delim: char)
    requires
        s.len() <= usize::MAX,
        delim == '(' || delim == '{',
    ensures
        next_expr_spec(s, delim) matches Found::LBracket(n) ==> n < s.len() && s[n as int]
            == delim,
        next_expr_spec(s, delim) matches Found::RBracket(n) ==> n < s.len() && s[n as int]
            == closing_delim_spec(delim),
{
    if delim == '(' {
        lemma_next_paren_pos(s, 0);
    } else {
        lemma_next_brace_pos(s, 0, 0);
    }
}

/// Whatever the parse model accepts prints back, under the same delimiter
/// family, to exactly the consumed prefix of the input: the model never
/// invents, drops or reorders characters.
#[verifier::rlimit(60)]
pub proof fn lemma_parse_repr_roundtrip(s: Seq<char>, delim: char)
    requires
        s.len() <= usize::MAX,
        delim == '(' || delim == '{',
    ensures
        parse_expr_spec(s, delim) matches Some(p) ==> repr(p.0, delim) == s.take(p.1),
        parse_args_spec(s, delim) matches Some(q) ==> q.0.len() >= 1 && args_repr(q.0, delim)
            + seq![closing_delim_spec(delim)] == s.take(q.1),
    decreases s.len(),
{
    lemma_next_expr_pos(s, delim);
    lemma_next_expr_char(s, delim);
    lemma_parse_bounds(s, delim);
    match next_expr_spec(s, delim) {
        Found::Nothing => {
            assert(s.take(s.len() as int) =~= s);
        },
        Found::Comma(n) => {},
        Found::RBracket(n) => {},
        Found::LBracket(n) => {
            if (n as int) < s.len() {
                lemma_parse_repr_roundtrip(s.skip(n + 1), delim);
                lemma_parse_bounds(s.skip(n + 1), delim);
                match parse_args_spec(s.skip(n + 1), delim) {
                    Some((args, u2)) => {
                        let ar = args_repr(args, delim);
                        let cl = seq![closing_delim_spec(delim)];
                        assert(ar + cl == s.skip(n + 1).take(u2));
                        assert(s[n as int] == delim);
                        assert((s.take(n as int) + seq![delim]) + (ar + cl) =~= s.take(
                            n + 1 + u2,
                        ));
                        assert(s.take(n as int) + seq![delim] + ar + cl =~= (s.take(n as int)
                            + seq![delim]) + (ar + cl));
                    },
                    None => {},
                }
            }
        },
    }
    match parse_expr_spec(s, delim) {
        Some((t, u)) => {
            if 0 <= u && u < s.len() {
                if s[u] == ',' {
                    lemma_parse_repr_roundtrip(s.skip(u + 1), delim);
                    lemma_parse_bounds(s.skip(u + 1), delim);
                    match parse_args_spec(s.skip(u + 1), delim) {
                        Some((rest, u3)) => {
                            assert((seq![t] + rest).drop_first() =~= rest);
                            assert((seq![t] + rest)[0] == t);
                            let ar = args_repr(rest, delim);
                            let cl = seq![closing_delim_spec(delim)];
                            assert(ar + cl == s.skip(u + 1).take(u3));
                            assert(repr(t, delim) == s.take(u));
                            assert(args_repr(seq![t] + rest, delim) == repr(t, delim) + seq![',']
                                + ar);
                            assert((s.take(u) + seq![',']) + (ar + cl) =~= s.take(u + 1 + u3));
                            assert(repr(t, delim) + seq![','] + ar + cl =~= (s.take(u) + seq![','])
                                + (ar + cl));
                        },
                        None => {},
                    }
                } else if s[u] == closing_delim_spec(delim) {
                    assert(seq![t].drop_first() =~= Seq::<TreeV>::empty());
                    assert(args_repr(seq![t], delim) + seq![closing_delim_spec(delim)] =~= s.take(
                        u + 1,
                    )) by {
                        assert(repr(t, delim) == s.take(u));
                    }
                }
            }
        },
        None => {},
    }
}


/// The running nesting height of the delimiter family over a string: an
/// opener deepens it, a matching closer shallows it, everything else
/// leaves it alone; the result is the greatest height reached.
pub open spec fn nesting_scan(
    s: Seq<char>,
    open: char,
    close: char,
    pos: int,
    h: int,
    m: int,
) -> int
    decreases s.len() - pos,
{
    if pos < 0 || pos >= s.len() {
        m
    } else {
        let ch = s[pos];
        if ch == open {
            nesting_scan(
                s,
                open,
                close,
                pos + 1,
                h + 1,
                if m < h + 1 {
                    h + 1
                } else {
                    m
                },
            )
        } else if ch == close && h > 0 {
            nesting_scan(s, open, close, pos + 1, h - 1, m)
        } else {
            nesting_scan(s, open, close, pos + 1, h, m)
        }
    }
}

/// The maximum nesting depth of a string for a delimiter family.
pub open spec fn max_nesting_depth(s: Seq<char>, open: char, close: char) -> int {
    nesting_scan(s, open, close, 0, 0, 0)
}

/// The depth the structural scan tracks is the nesting height fold.
proof fn lemma_scan_depth_tracks(
    s: Seq<char>,
    open: char,
    close: char,
    pos: int,
    stack: Seq<(char, usize)>,
    max_depth: int,
)
    requires
        0 <= pos <= s.len(),
        s.len() <= usize::MAX,
        stack.len() <= pos,
        0 <= max_depth <= pos,
        stack.len() <= max_depth,
    ensures
        pre_check_scan(s, open, close, pos, stack, max_depth) is Ok ==> nesting_scan(
            s,
            open,
            close,
            pos,
            stack.len() as int,
            max_depth,
        ) <= crate::MAX_RECURSION_DEPTH as int,
        pre_check_scan(s, open, close, pos, stack, max_depth) matches Err(
            ParseTreeError::MaxRecursionDepthExceeded { actual, maximum },
        ) ==> actual == nesting_scan(s, open, close, pos, stack.len() as int, max_depth),
    decreases s.len() - pos,
{
    if 0 <= pos < s.len() {
        let ch = s[pos];
        if ch == open {
            let pushed = stack.push((ch, pos as usize));
            let new_max = if max_depth < pushed.len() {
                pushed.len() as int
            } else {
                max_depth
            };
            lemma_scan_depth_tracks(s, open, close, pos + 1, pushed, new_max);
        } else if ch == close {
            if stack.len() > 0 {
                let open_ch = stack.last().0;
                if !((open_ch == '(' && ch == '}') || (open_ch == '{' && ch == ')')) {
                    if stack.len() >= 2 {
                        if pos < s.len() - 1 && (s[pos + 1] == ')' || s[pos + 1] == '}' || s[pos
                            + 1] == ',') {
                            lemma_scan_depth_tracks(
                                s,
                                open,
                                close,
                                pos + 1,
                                stack.drop_last(),
                                max_depth,
                            );
                        }
                    } else {
                        if pos >= s.len() - 1 {
                            lemma_scan_depth_tracks(
                                s,
                                open,
                                close,
                                pos + 1,
                                stack.drop_last(),
                                max_depth,
                            );
                        }
                    }
                }
            }
        } else if ch == ',' && stack.len() == 0 {
        } else {
            lemma_scan_depth_tracks(s, open, close, pos + 1, stack, max_depth);
        }
    }
}

/// The depth gate measures exactly the nesting height of the input: an
/// accepted input nests no deeper than the fixed maximum, and a depth
/// error reports exactly the input's nesting depth, above the maximum.
pub proof fn lemma_depth_is_measured(s: Seq<char>, open: char, close: char)
    requires
        s.len() <= usize::MAX,
    ensures
        pre_check_spec(s, open, close) is Ok ==> max_nesting_depth(s, open, close)
            <= crate::MAX_RECURSION_DEPTH as int,
        pre_check_spec(s, open, close) matches Err(ParseTreeError::MaxRecursionDepthExceeded {
            actual,
            maximum,
        }) ==> actual == max_nesting_depth(s, open, close) && actual
            > crate::MAX_RECURSION_DEPTH as usize && maximum == crate::MAX_RECURSION_DEPTH,
{
    lemma_charset_err_shape(s, 0);
    lemma_scan_depth_error(s, open, close, 0, Seq::empty(), 0);
    lemma_scan_depth_tracks(s, open, close, 0, Seq::empty(), 0);
}


/// Well-formedness of a tree shape for the round-bracket grammar: no name
/// anywhere in the tree contains a delimiter or separator character, and
/// every inner node has at least one child.
pub open spec fn wf_tree(t: TreeV) -> bool
    decreases t,
{
    &&& (forall|i: int|
        0 <= i < t.name.len() ==> t.name[i] != '(' && t.name[i] != ')' && t.name[i] != ',')
    &&& wf_trees(t.args)
}

/// Well-formedness of a sequence of tree shapes.
pub open spec fn wf_trees(ts: Seq<TreeV>) -> bool
    decreases ts,
{
    if ts.len() == 0 {
        true
    } else {
        wf_tree(ts[0]) && wf_trees(ts.drop_first())
    }
}

/// A prefix without significant characters does not change what the
/// round-bracket scan finds.
proof fn lemma_next_paren_skip_prefix(s: Seq<char>, j: int)
    requires
        0 <= j <= s.len(),
        forall|i: int| 0 <= i < j ==> s[i] != '(' && s[i] != ',' && s[i] != ')',
    ensures
        next_expr_paren(s, 0) == next_expr_paren(s, j),
    decreases j,
{
    if j > 0 {
        lemma_next_paren_skip_prefix(s, j - 1);
    }
}

/// The text of a well-formed tree shape parses back, in round-bracket
/// mode, to exactly that shape, consuming exactly its own characters,
/// whenever what follows is empty or starts at a separator or closer: the
/// parse model accepts the whole printable range of the grammar.
#[verifier::rlimit(60)]
pub proof fn lemma_repr_parses_back(t: TreeV, rest: Seq<char>)
    requires
        wf_tree(t),
        (repr(t, '(') + rest).len() <= usize::MAX,
        rest.len() == 0 || rest[0] == ',' || rest[0] == ')',
    ensures
        parse_expr_spec(repr(t, '(') + rest, '(') == Some(
            (t, repr(t, '(').len() as int),
        ),
    decreases t, 0int,
{
    let s = repr(t, '(') + rest;
    if t.args.len() == 0 {
        assert(repr(t, '(') == t.name);
        assert forall|i: int| 0 <= i < t.name.len() implies s[i] != '(' && s[i] != ',' && s[i]
            != ')' by {
            assert(s[i] == t.name[i]);
        }
        if rest.len() == 0 {
            assert(s =~= t.name);
            lemma_next_paren_skip_prefix(s, s.len() as int);
            assert(next_expr_spec(s, '(') == Found::Nothing);
            assert(t.args =~= Seq::<TreeV>::empty());
            assert(TreeV { name: s, args: Seq::empty() } =~~= t);
        } else {
            lemma_next_paren_skip_prefix(s, t.name.len() as int);
            assert(s[t.name.len() as int] == rest[0]);
            let j = t.name.len() as int;
            if rest[0] == ',' {
                assert(next_expr_spec(s, '(') == Found::Comma(j as usize));
            } else {
                assert(next_expr_spec(s, '(') == Found::RBracket(j as usize));
            }
            assert(s.take(j) =~= t.name);
            assert(t.args =~= Seq::<TreeV>::empty());
            assert(TreeV { name: s.take(j), args: Seq::empty() } =~~= t);
        }
    } else {
        let ar = args_repr(t.args, '(');
        assert(repr(t, '(') == t.name + seq!['('] + ar + seq![')']);
        assert forall|i: int| 0 <= i < t.name.len() implies s[i] != '(' && s[i] != ',' && s[i]
            != ')' by {
            assert(s[i] == t.name[i]);
        }
        let j = t.name.len() as int;
        assert(s[j] == '(');
        lemma_next_paren_skip_prefix(s, j);
        assert(next_expr_spec(s, '(') == Found::LBracket(j as usize));
        assert(s.skip(j + 1) =~= ar + seq![')'] + rest);
        lemma_args_repr_parses_back(t.args, rest);
        assert(parse_args_spec(s.skip(j + 1), '(') == Some((t.args, ar.len() as int + 1)));
        assert(s.take(j) =~= t.name);
        assert(TreeV { name: s.take(j), args: t.args } =~~= t);
        assert(repr(t, '(').len() as int == j + 1 + ar.len() as int + 1);
    }
}

/// The comma-separated texts of well-formed tree shapes, followed by the
/// closing bracket, parse back to exactly those shapes, consuming through
/// the closer.
#[verifier::rlimit(60)]
proof fn lemma_args_repr_parses_back(args: Seq<TreeV>, rest: Seq<char>)
    requires
        wf_trees(args),
        args.len() >= 1,
        (args_repr(args, '(') + seq![')'] + rest).len() <= usize::MAX,
    ensures
        parse_args_spec(args_repr(args, '(') + seq![')'] + rest, '(') == Some(
            (args, args_repr(args, '(').len() as int + 1),
        ),
    decreases args, 1int,
{
    let s = args_repr(args, '(') + seq![')'] + rest;
    assert(wf_tree(args[0]));
    if args.len() == 1 {
        assert(args_repr(args, '(') == repr(args[0], '('));
        let tail = seq![')'] + rest;
        assert(s =~= repr(args[0], '(') + tail);
        assert(tail[0] == ')');
        lemma_repr_parses_back(args[0], tail);
        let u = repr(args[0], '(').len() as int;
        assert(parse_expr_spec(s, '(') == Some((args[0], u)));
        assert(s[u] == ')');
        assert(seq![args[0]] =~= args);
    } else {
        let ar0 = repr(args[0], '(');
        let more = args.drop_first();
        let arm = args_repr(more, '(');
        assert(args_repr(args, '(') == ar0 + seq![','] + arm);
        let tail = seq![','] + (arm + seq![')'] + rest);
        assert(s =~= ar0 + tail);
        assert(tail[0] == ',');
        lemma_repr_parses_back(args[0], tail);
        let u = ar0.len() as int;
        assert(parse_expr_spec(s, '(') == Some((args[0], u)));
        assert(s[u] == ',');
        assert(s.skip(u + 1) =~= arm + seq![')'] + rest);
        lemma_args_repr_parses_back(more, rest);
        assert(parse_args_spec(s.skip(u + 1), '(') == Some((more, arm.len() as int + 1)));
        assert(seq![args[0]] + more =~= args);
    }
}


/// The running balance of one delimiter family over `s[i..j)`: an opener
/// counts one up, its closer one down, every other character nothing.
pub open spec fn delim_balance(s: Seq<char>, open: char, close: char, i: int, j: int) -> int
    decreases j - i,
{
    if i < 0 || i >= j || j > s.len() {
        0
    } else {
        let d: int = if s[i] == open {
            1
        } else if s[i] == close {
            -1
        } else {
            0
        };
        d + delim_balance(s, open, close, i + 1, j)
    }
}

/// The balance over a single character is its own contribution.
proof fn lemma_delim_balance_single(s: Seq<char>, open: char, close: char, i: int)
    requires
        0 <= i < s.len(),
    ensures
        delim_balance(s, open, close, i, i + 1) == (if s[i] == open {
            1int
        } else if s[i] == close {
            -1int
        } else {
            0int
        }),
{
    reveal_with_fuel(delim_balance, 2);
}

/// The balance over a range is the sum of the balances over its parts.
proof fn lemma_delim_balance_split(s: Seq<char>, open: char, close: char, i: int, j: int, k: int)
    requires
        0 <= i <= j <= k <= s.len(),
    ensures
        delim_balance(s, open, close, i, k) == delim_balance(s, open, close, i, j)
            + delim_balance(s, open, close, j, k),
    decreases j - i,
{
    if i < j {
        lemma_delim_balance_split(s, open, close, i + 1, j, k);
    }
}

/// A range without family characters is balanced.
proof fn lemma_delim_balance_free(s: Seq<char>, open: char, close: char, i: int, j: int)
    requires
        0 <= i <= j <= s.len(),
        forall|m: int| i <= m < j ==> s[m] != open && s[m] != close,
    ensures
        delim_balance(s, open, close, i, j) == 0,
    decreases j - i,
{
    if i < j {
        lemma_delim_balance_free(s, open, close, i + 1, j);
    }
}

/// The balance is invariant under shifting into a suffix.
proof fn lemma_delim_balance_shift(s: Seq<char>, open: char, close: char, a: int, i: int, j: int)
    requires
        0 <= a,
        0 <= i <= j,
        a + j <= s.len(),
    ensures
        delim_balance(s.skip(a), open, close, i, j) == delim_balance(s, open, close, a + i, a + j),
    decreases j - i,
{
    if i < j {
        assert(s.skip(a)[i] == s[a + i]);
        lemma_delim_balance_shift(s, open, close, a, i + 1, j);
    }
}

/// Before what the parenthesis-mode scan finds, no round bracket occurs.
proof fn lemma_next_paren_free(s: Seq<char>, pos: int)
    requires
        0 <= pos <= s.len(),
    ensures
        match next_expr_paren(s, pos) {
            Found::Nothing => forall|i: int|
                pos <= i < s.len() ==> s[i] != '(' && s[i] != ')',
            Found::LBracket(n) => forall|i: int| pos <= i < n ==> s[i] != '(' && s[i] != ')',
            Found::Comma(n) => forall|i: int| pos <= i < n ==> s[i] != '(' && s[i] != ')',
            Found::RBracket(n) => forall|i: int| pos <= i < n ==> s[i] != '(' && s[i] != ')',
        },
    decreases s.len() - pos,
{
    if pos < s.len() {
        lemma_next_paren_free(s, pos + 1);
    }
}

/// Before what the brace-mode scan finds, no brace occurs.
proof fn lemma_next_brace_free(s: Seq<char>, pos: int, count: int)
    requires
        0 <= pos <= s.len(),
    ensures
        match next_expr_brace(s, pos, count) {
            Found::Nothing => forall|i: int|
                pos <= i < s.len() ==> s[i] != '{' && s[i] != '}',
            Found::LBracket(n) => forall|i: int| pos <= i < n ==> s[i] != '{' && s[i] != '}',
            Found::Comma(n) => forall|i: int| pos <= i < n ==> s[i] != '{' && s[i] != '}',
            Found::RBracket(n) => forall|i: int| pos <= i < n ==> s[i] != '{' && s[i] != '}',
        },
    decreases s.len() - pos,
{
    if pos < s.len() {
        lemma_next_brace_free(s, pos + 1, count + 1);
        lemma_next_brace_free(s, pos + 1, count);
        lemma_next_brace_free(s, pos + 1, count - 1);
    }
}

/// Before what the scan finds, no delimiter of the scanned family occurs.
proof fn lemma_next_expr_family_free(s: Seq<char>, delim: char)
    requires
        delim == '(' || delim == '{',
    ensures
        ({
            let close = closing_delim_spec(delim);
            match next_expr_spec(s, delim) {
                Found::Nothing => forall|i: int|
                    0 <= i < s.len() ==> s[i] != delim && s[i] != close,
                Found::LBracket(n) => forall|i: int| 0 <= i < n ==> s[i] != delim && s[i] != close,
                Found::Comma(n) => forall|i: int| 0 <= i < n ==> s[i] != delim && s[i] != close,
                Found::RBracket(n) => forall|i: int| 0 <= i < n ==> s[i] != delim && s[i] != close,
            }
        }),
{
    if delim == '(' {
        lemma_next_paren_free(s, 0);
    } else {
        lemma_next_brace_free(s, 0, 0);
    }
}

/// What the parse model consumes is balanced: a whole expression closes
/// every delimiter it opens, and an argument list closes exactly one more
/// than it opens, ending on that closer.
#[verifier::rlimit(60)]
proof fn lemma_parse_balance(s: Seq<char>, delim: char)
    requires
        s.len() <= usize::MAX,
        delim == '(' || delim == '{',
    ensures
        parse_expr_spec(s, delim) matches Some(p) ==> delim_balance(
            s,
            delim,
            closing_delim_spec(delim),
            0,
            p.1,
        ) == 0,
        parse_args_spec(s, delim) matches Some(q) ==> s[q.1 - 1] == closing_delim_spec(delim)
            && delim_balance(s, delim, closing_delim_spec(delim), 0, q.1) == -1,
    decreases s.len(),
{
    let close = closing_delim_spec(delim);
    lemma_next_expr_pos(s, delim);
    lemma_next_expr_char(s, delim);
    lemma_next_expr_family_free(s, delim);
    lemma_parse_bounds(s, delim);
    match next_expr_spec(s, delim) {
        Found::Nothing => {
            lemma_delim_balance_free(s, delim, close, 0, s.len() as int);
        },
        Found::Comma(n) => {
            lemma_delim_balance_free(s, delim, close, 0, n as int);
        },
        Found::RBracket(n) => {
            lemma_delim_balance_free(s, delim, close, 0, n as int);
        },
        Found::LBracket(n) => {
            if (n as int) < s.len() {
                lemma_parse_balance(s.skip(n + 1), delim);
                lemma_parse_bounds(s.skip(n + 1), delim);
                match parse_args_spec(s.skip(n + 1), delim) {
                    Some((args, u2)) => {
                        lemma_delim_balance_free(s, delim, close, 0, n as int);
                        lemma_delim_balance_shift(s, delim, close, n + 1, 0, u2);
                        lemma_delim_balance_split(s, delim, close, 0, n as int, n + 1);
                        lemma_delim_balance_split(s, delim, close, 0, n + 1, n + 1 + u2);
                        lemma_delim_balance_single(s, delim, close, n as int);
                        assert(delim_balance(s, delim, close, n as int, n + 1) == 1);
                    },
                    None => {},
                }
            }
        },
    }
    match parse_expr_spec(s, delim) {
        Some((t, u)) => {
            if 0 <= u && u < s.len() {
                if s[u] == ',' {
                    lemma_parse_balance(s.skip(u + 1), delim);
                    lemma_parse_bounds(s.skip(u + 1), delim);
                    match parse_args_spec(s.skip(u + 1), delim) {
                        Some((rest, u3)) => {
                            lemma_delim_balance_shift(s, delim, close, u + 1, 0, u3);
                            lemma_delim_balance_split(s, delim, close, 0, u, u + 1);
                            lemma_delim_balance_split(s, delim, close, 0, u + 1, u + 1 + u3);
                            lemma_delim_balance_single(s, delim, close, u);
                            assert(delim_balance(s, delim, close, u, u + 1) == 0);
                            assert(s[u + 1 + u3 - 1] == s.skip(u + 1)[u3 - 1]);
                        },
                        None => {},
                    }
                } else if s[u] == close {
                    lemma_delim_balance_split(s, delim, close, 0, u, u + 1);
                    lemma_delim_balance_single(s, delim, close, u);
                    assert(delim_balance(s, delim, close, u, u + 1) == -1);
                }
            }
        },
        None => {},
    }
}

/// What an accepted scan guarantees of delimiter levels: with the current
/// open stack counted in, no comma stands at level zero, every closer
/// stands at a positive level, and a closer that returns the level to zero
/// is the last character of the input.
proof fn lemma_scan_balance(
    s: Seq<char>,
    open: char,
    close: char,
    pos: int,
    stack: Seq<(char, usize)>,
    max_depth: int,
)
    requires
        0 <= pos <= s.len(),
        s.len() <= usize::MAX,
        (open == '(' && close == ')') || (open == '{' && close == '}'),
    ensures
        pre_check_scan(s, open, close, pos, stack, max_depth) is Ok ==> ({
            let k = stack.len() as int;
            &&& forall|j: int|
                pos <= j < s.len() && s[j] == ',' ==> k + delim_balance(s, open, close, pos, j)
                    != 0
            &&& forall|j: int|
                pos <= j < s.len() && s[j] == close ==> k + delim_balance(s, open, close, pos, j)
                    >= 1
            &&& forall|j: int|
                pos <= j < s.len() && s[j] == close && k + delim_balance(s, open, close, pos, j)
                    == 1 ==> j == s.len() - 1
        }),
    decreases s.len() - pos,
{
    if pre_check_scan(s, open, close, pos, stack, max_depth) is Ok && pos < s.len() {
        let k = stack.len() as int;
        let ch = s[pos];
        if ch == open {
            let pushed = stack.push((ch, pos as usize));
            let new_max = if max_depth < pushed.len() {
                pushed.len() as int
            } else {
                max_depth
            };
            lemma_scan_balance(s, open, close, pos + 1, pushed, new_max);
            assert forall|j: int| pos < j < s.len() implies k + delim_balance(
                s,
                open,
                close,
                pos,
                j,
            ) == (k + 1) + delim_balance(s, open, close, pos + 1, j) by {}
        } else if ch == close {
            lemma_scan_balance(s, open, close, pos + 1, stack.drop_last(), max_depth);
            assert forall|j: int| pos < j < s.len() implies k + delim_balance(
                s,
                open,
                close,
                pos,
                j,
            ) == (k - 1) + delim_balance(s, open, close, pos + 1, j) by {}
        } else {
            lemma_scan_balance(s, open, close, pos + 1, stack, max_depth);
            assert forall|j: int| pos < j < s.len() implies k + delim_balance(
                s,
                open,
                close,
                pos,
                j,
            ) == k + delim_balance(s, open, close, pos + 1, j) by {}
        }
    }
}

/// An input that the pre-check accepts is consumed whole: whenever the
/// parse model succeeds on it, nothing remains. This is why the
/// depth-zero descent never leaves a remainder behind.
pub proof fn lemma_pre_checked_parse_is_whole(s: Seq<char>, open: char, close: char)
    requires
        s.len() <= usize::MAX,
        (open == '(' && close == ')') || (open == '{' && close == '}'),
    ensures
        pre_check_spec(s, open, close) is Ok ==> (parse_expr_spec(s, open) matches Some(p)
            ==> p.1 == s.len()),
{
    if pre_check_spec(s, open, close) is Ok {
        lemma_scan_balance(s, open, close, 0, Seq::empty(), 0);
        lemma_parse_balance(s, open);
        lemma_parse_bounds(s, open);
        lemma_next_expr_pos(s, open);
        lemma_next_expr_char(s, open);
        match parse_expr_spec(s, open) {
            Some((t, u)) => {
                match next_expr_spec(s, open) {
                    Found::Nothing => {},
                    Found::Comma(n) => {
                        // A comma at level zero would have been rejected as
                        // a trailing character.
                        assert(s[n as int] == ',');
                        assert(delim_balance(s, open, close, 0, n as int) == 0);
                        assert(false);
                    },
                    Found::RBracket(n) => {
                        // A closer at level zero would have been rejected
                        // as unmatched.
                        assert(s[n as int] == close);
                        assert(delim_balance(s, open, close, 0, n as int) == 0);
                        assert(false);
                    },
                    Found::LBracket(n) => {
                        // The consumed text ends on the closer that returns
                        // the level to zero, which the scan pins to the end
                        // of the input.
                        lemma_parse_bounds(s.skip(n + 1), open);
                        lemma_parse_balance(s.skip(n + 1), open);
                        match parse_args_spec(s.skip(n + 1), open) {
                            Some((args, u2)) => {
                                assert(s[u - 1] == s.skip(n + 1)[u2 - 1]);
                                assert(s[u - 1] == close);
                                lemma_delim_balance_split(s, open, close, 0, u - 1, u);
                                lemma_delim_balance_single(s, open, close, u - 1);
                                assert(delim_balance(s, open, close, u - 1, u) == -1);
                                assert(delim_balance(s, open, close, 0, u - 1) == 1);
                                assert(u - 1 == s.len() - 1);
                            },
                            None => {},
                        }
                    },
                }
            },
            None => {},
        }
    }
}

impl<'a> Tree<'a> {
    /// Parse an expression with round brackets.
    ///
    /// The input must already have its checksum suffix verified and
    /// stripped by the external checksum collaborator; here `#` is an
    /// ordinary name character.
    pub fn from_slice(sl: &'a str) -> (r: Result<(Tree<'a>, &'a str), Error>)
        ensures
            match pre_check_spec(sl@, '(', ')') {
                Err(e) => r matches Err(Error::ParseTree(pe)) && pe == e,
                Ok(()) => match parse_expr_spec(sl@, '(') {
                    Some(p) => {
                        &&& r matches Ok(tr)
                        &&& tr.0@ == p.0
                        &&& tr.1@ == sl@.skip(p.1)
                    },
                    None => r is Err,
                },
            },
            r matches Ok(tr) ==> repr(tr.0@, '(') + tr.1@ == sl@,
            r matches Ok(tr) ==> tr.1@.len() == 0,
    {
        let _len: usize = sl.unicode_len();
        proof {
            lemma_parse_repr_roundtrip(sl@, '(');
        }
        let r = Self::from_slice_delim(sl, 0u32, '(');
        proof {
            match pre_check_spec(sl@, '(', ')') {
                Ok(()) => match parse_expr_spec(sl@, '(') {
                    Some(p) => {
                        lemma_parse_bounds(sl@, '(');
                        assert(sl@.take(p.1) + sl@.skip(p.1) =~= sl@);
                        // A pre-checked input is consumed whole, so the
                        // remainder is empty.
                        lemma_pre_checked_parse_is_whole(sl@, '(', ')');
                    },
                    None => {},
                },
                Err(_) => {},
            }
        }
        r
    }

    /// Recursive descent over a slice: at depth zero the structural
    /// pre-check runs once over the whole input; below that, each level
    /// scans for its next significant character and recurses on the
    /// bracketed argument lists.
    pub(crate) fn from_slice_delim(sl: &'a str, depth: u32, delim: char) -> (r: Result<
        (Tree<'a>, &'a str),
        Error,
    >)
        requires
            delim == '(' || delim == '{',
            depth > 0 ==> sl.is_ascii(),
        ensures
            ({
                let checked: Result<(), ParseTreeError> = if depth == 0 {
                    pre_check_spec(sl@, delim, closing_delim_spec(delim))
                } else {
                    Ok(())
                };
                match checked {
                    Err(e) => r matches Err(Error::ParseTree(pe)) && pe == e,
                    Ok(()) => match parse_expr_spec(sl@, delim) {
                        Some(p) => {
                            &&& r matches Ok(tr)
                            &&& tr.0@ == p.0
                            &&& tr.1@ == sl@.skip(p.1)
                            &&& tr.1.is_ascii()
                        },
                        None => r is Err,
                    },
                }
            }),
        decreases sl@.len(),
    {
        if depth == 0 {
            let close = closing_delim(delim);
            match Self::parse_pre_check(sl, delim, close) {
                Err(e) => {
                    return Err(Error::ParseTree(e));
                },
                Ok(()) => {},
            }
        }
        let len = sl.unicode_len();
        proof {
            lemma_next_expr_pos(sl@, delim);
            lemma_parse_bounds(sl@, delim);
        }
        match next_expr(sl, delim) {
            // String-ending terminal.
            Found::Nothing => {
                let rem = sl.substring_ascii(len, len);
                let t = Tree { name: sl, args: Vec::new() };
                proof {
                    assert(t.args@ =~= Seq::<Tree<'a>>::empty());
                    assert(t@.args =~= Seq::<TreeV>::empty());
                    assert(rem@ =~= sl@.skip(len as int));
                    assert(t@ =~~= parse_expr_spec(sl@, delim)->Some_0.0);
                }
                Ok((t, rem))
            },
            // Terminal followed by more input.
            Found::Comma(n) => {
                let name = sl.substring_ascii(0, n);
                let rem = sl.substring_ascii(n, len);
                let t = Tree { name, args: Vec::new() };
                proof {
                    assert(t.args@ =~= Seq::<Tree<'a>>::empty());
                    assert(t@.args =~= Seq::<TreeV>::empty());
                    assert(name@ =~= sl@.take(n as int));
                    assert(rem@ =~= sl@.skip(n as int));
                    assert(t@ =~~= parse_expr_spec(sl@, delim)->Some_0.0);
                }
                Ok((t, rem))
            },
            Found::RBracket(n) => {
                let name = sl.substring_ascii(0, n);
                let rem = sl.substring_ascii(n, len);
                let t = Tree { name, args: Vec::new() };
                proof {
                    assert(t.args@ =~= Seq::<Tree<'a>>::empty());
                    assert(t@.args =~= Seq::<TreeV>::empty());
                    assert(name@ =~= sl@.take(n as int));
                    assert(rem@ =~= sl@.skip(n as int));
                    assert(t@ =~~= parse_expr_spec(sl@, delim)->Some_0.0);
                }
                Ok((t, rem))
            },
            // Function call: consume the bracket, then parse children
            // separated by commas until the matching closer is consumed.
            Found::LBracket(n) => {
                let name = sl.substring_ascii(0, n);
                let mut args: Vec<Tree<'a>> = Vec::new();
                let mut cur: &'a str = sl.substring_ascii(n + 1, len);
                let ghost args_start: Seq<char> = sl@.skip(n as int + 1);
                let ghost mut consumed: int = 0;
                let child_depth = match depth.checked_add(1) {
                    Some(d) => d,
                    None => depth,
                };
                proof {
                    assert(name@ =~= sl@.take(n as int));
                    assert(cur@ =~= args_start.skip(0));
                }
                loop
                    invariant
                        delim == '(' || delim == '{',
                        child_depth > 0,
                        sl.is_ascii(),
                        cur.is_ascii(),
                        len == sl@.len(),
                        len <= usize::MAX,
                        0 <= n < len,
                        name@ == sl@.take(n as int),
                        args_start == sl@.skip(n as int + 1),
                        0 <= consumed <= args_start.len(),
                        cur@ == args_start.skip(consumed),
                        next_expr_spec(sl@, delim) == Found::LBracket(n),
                        depth == 0 ==> pre_check_spec(
                            sl@,
                            delim,
                            closing_delim_spec(delim),
                        ) is Ok,
                        (match parse_args_spec(cur@, delim) {
                            Some(q) => parse_args_spec(args_start, delim) matches Some(p)
                                && p.0 == trees_view(args@) + q.0
                                && p.1 == consumed + q.1,
                            None => parse_args_spec(args_start, delim) is None,
                        }),
                    decreases args_start.len() - consumed,
                {
                    match Self::from_slice_delim(cur, child_depth, delim) {
                        Err(e) => {
                            proof {
                                lemma_parse_bounds(sl@, delim);
                            }
                            return Err(e);
                        },
                        Ok((arg, new_sl)) => {
                            let ghost u = parse_expr_spec(cur@, delim)->Some_0.1;
                            proof {
                                lemma_parse_bounds(cur@, delim);
                            }
                            let ghost prev_args = args@;
                            args.push(arg);
                            proof {
                                lemma_trees_view_push(prev_args, arg);
                            }
                            let new_len = new_sl.unicode_len();
                            if new_len == 0 {
                                // The argument list never ends. The
                                // pre-check guarantees a matching closer
                                // for every opener, so this is not reached
                                // on pre-checked input.
                                return Err(errstr(sl));
                            }
                            let b = new_sl.get_char(0);
                            proof {
                                assert(new_sl@[0] == cur@[u as int]);
                            }
                            let rest = new_sl.substring_ascii(1, new_len);
                            proof {
                                assert(rest@ =~= cur@.skip(u + 1));
                                assert(args_start.skip(consumed + u + 1) =~= cur@.skip(u + 1));
                            }
                            if b == ',' {
                                proof {
                                    consumed = consumed + u + 1;
                                }
                                cur = rest;
                            } else {
                                let close = closing_delim(delim);
                                if b == close {
                                    let t = Tree { name, args };
                                    proof {
                                        assert(sl@.skip(n as int + 1).skip(consumed + u + 1)
                                            =~= sl@.skip(n as int + 1 + consumed + u + 1));
                                        assert(t@ =~~= parse_expr_spec(sl@, delim)->Some_0.0);
                                    }
                                    return Ok((t, rest));
                                } else {
                                    // Neither a separator nor this
                                    // family's closing delimiter. The
                                    // pre-check accepts a closer of either
                                    // family after a nested closer, so a
                                    // stray other-family closer can reach
                                    // this point; it is rejected here.
                                    return Err(errstr(sl));
                                }
                            }
                        },
                    }
                }
            },
        }
    }

    /// Parses a tree from a string.
    ///
    /// The string must hold exactly one expression: a structurally valid
    /// expression with remaining input is rejected by the pre-check before
    /// descent ever starts. The string must already have its checksum
    /// suffix verified and stripped by the external checksum collaborator;
    /// here `#` is an ordinary name character.
    pub fn from_str(s: &'a str) -> (r: Result<Tree<'a>, Error>)
        ensures
            match pre_check_spec(s@, '(', ')') {
                Err(e) => r matches Err(Error::ParseTree(pe)) && pe == e,
                Ok(()) => match parse_expr_spec(s@, '(') {
                    Some(p) => r matches Ok(t) && t@ == p.0,
                    None => r is Err,
                },
            },
            r matches Ok(top) ==> repr(top@, '(') == s@,
    {
        let _len: usize = s.unicode_len();
        proof {
            lemma_parse_bounds(s@, '(');
            lemma_parse_repr_roundtrip(s@, '(');
            assert(s@.take(s@.len() as int) =~= s@);
        }
        match Self::from_slice(s) {
            Err(e) => Err(e),
            Ok((top, rem)) => {
                if rem.is_empty() {
                    Ok(top)
                } else {
                    // A depth-zero parse of a pre-checked input is proved
                    // to consume the whole string, so this branch cannot
                    // be reached.
                    proof {
                        assert(false);
                    }
                    Err(errstr(rem))
                }
            },
        }
    }
}

/// Parse a string as a `u32`, for timelocks or thresholds.
///
/// Accepts only canonical decimal representations: any single digit, or a
/// multi-digit string whose first digit is nonzero; rejects leading zeros,
/// signs and non-digit characters.
pub fn parse_num(s: &str) -> (r: Result<u32, Error>)
    ensures
        match r {
            Ok(n) => valid_num_str(s@) && n == num_value(s@),
            Err(e) => !valid_num_str(s@) && e matches Error::Unexpected(_),
        },
{
    let len = s.unicode_len();
    if len == 0 {
        return Err(errstr(s));
    }
    if len > 1 {
        let c0 = s.get_char(0);
        if !('1' <= c0 && c0 <= '9') {
            return Err(Error::Unexpected("Number must start with a digit 1-9".to_owned()));
        }
    }
    let mut acc: u32 = 0;
    let mut i: usize = 0;
    while i < len
        invariant
            0 <= i <= len,
            len == s@.len(),
            forall|j: int| 0 <= j < i ==> is_digit(#[trigger] s@[j]),
            acc == num_value(s@.take(i as int)),
            len > 1 ==> '1' <= s@[0] && s@[0] <= '9',
        decreases len - i,
    {
        let c = s.get_char(i);
        if !('0' <= c && c <= '9') {
            return Err(errstr(s));
        }
        let d = (c as u32) - ('0' as u32);
        let step = match acc.checked_mul(10) {
            Some(m) => m.checked_add(d),
            None => None,
        };
        match step {
            Some(v) => {
                proof {
                    let t = s@.take(i + 1);
                    assert(t.drop_last() =~= s@.take(i as int));
                }
                acc = v;
            },
            None => {
                proof {
                    let t = s@.take(i + 1);
                    assert(t.drop_last() =~= s@.take(i as int));
                    if forall|j: int| 0 <= j < s@.len() ==> is_digit(#[trigger] s@[j]) {
                        lemma_num_value_prefix_le(s@, i + 1);
                    }
                }
                return Err(errstr(s));
            },
        }
        i += 1;
    }
    proof {
        assert(s@.take(len as int) =~= s@);
    }
    Ok(acc)
}

impl<'a> Tree<'a> {
    /// Parses an expression tree as a threshold: a term with at least one
    /// child, the first of which is a leaf holding a canonical number `k`.
    ///
    /// This sanity-checks that the threshold is well-formed but does not
    /// parse the children of the threshold. Instead it returns a threshold
    /// holding the empty type `()`, and expects the caller to convert this
    /// to the real threshold type.
    pub fn to_null_threshold<const MAX: usize>(&self) -> (r: Result<
        crate::Threshold<(), MAX>,
        error::ParseThresholdError,
    >)
        ensures
            self@.args.len() == 0 ==> r matches Err(error::ParseThresholdError::NoChildren),
            self@.args.len() > 0 && self@.args[0].args.len() != 0 ==> r matches Err(
                error::ParseThresholdError::KNotTerminal,
            ),
            self@.args.len() > 0 && self@.args[0].args.len() == 0 && !valid_num_str(
                self@.args[0].name,
            ) ==> r matches Err(error::ParseThresholdError::ParseK(_)),
            self@.args.len() > 0 && self@.args[0].args.len() == 0 && valid_num_str(
                self@.args[0].name,
            ) ==> ({
                let k = num_value(self@.args[0].name);
                let n = (self@.args.len() - 1) as nat;
                if crate::Threshold::<(), MAX>::spec_valid(k as usize, n) {
                    r matches Ok(t) && t.spec_k() == k && t.spec_inner().len() == n
                } else {
                    r matches Err(error::ParseThresholdError::Threshold(_))
                }
            }),
    {
        proof {
            lemma_trees_view_len(self.args@);
        }
        // Special-case "no arguments" so the first argument can be read
        // without a bounds failure.
        if self.args.len() == 0 {
            return Err(error::ParseThresholdError::NoChildren);
        }
        let first = &self.args[0];
        proof {
            lemma_trees_view_index(self.args@, 0);
            lemma_trees_view_len(first.args@);
        }
        if first.args.len() != 0 {
            return Err(error::ParseThresholdError::KNotTerminal);
        }
        let k = match parse_num(first.name) {
            Ok(k) => k,
            Err(e) => {
                let m = match e {
                    Error::Unexpected(m) => m,
                    _ => String::new(),
                };
                return Err(error::ParseThresholdError::ParseK(m));
            },
        };
        let n = self.args.len() - 1;
        let mut items: Vec<()> = Vec::new();
        let mut i: usize = 0;
        while i < n
            invariant
                0 <= i <= n,
                items@.len() == i,
            decreases n - i,
        {
            items.push(());
            i += 1;
        }
        match crate::Threshold::<(), MAX>::new(k as usize, items) {
            Ok(t) => Ok(t),
            Err(e) => Err(error::ParseThresholdError::Threshold(e)),
        }
    }
}

/// Attempts to parse a terminal expression: a node with no children, whose
/// name is handed to a caller-supplied conversion.
pub fn terminal<'a, T, F: FnOnce(&'a str) -> Result<T, Error>>(term: &Tree<'a>, convert: F) -> (r:
    Result<T, Error>)
    requires
        term.args@.len() == 0 ==> call_requires(convert, (term.name,)),
    ensures
        term@.args.len() == 0 ==> call_ensures(convert, (term.name,), r),
        term@.args.len() != 0 ==> (r matches Err(Error::Unexpected(m)) && m@ == term.name@),
{
    proof {
        lemma_trees_view_len(term.args@);
    }
    if term.args.len() == 0 {
        convert(term.name)
    } else {
        Err(errstr(term.name))
    }
}

/// Attempts to parse an expression with exactly one child: the child is
/// built through [`FromTree`] and handed to a caller-supplied conversion.
pub fn unary<L: FromTree, T, F: FnOnce(L) -> T>(term: &Tree<'_>, convert: F) -> (r: Result<
    T,
    Error,
>)
    requires
        forall|l: L| call_requires(convert, (l,)),
    ensures
        term@.args.len() != 1 ==> (r matches Err(Error::Unexpected(m)) && m@ == term.name@),
        term@.args.len() == 1 && r is Ok ==> exists|l: L| #[trigger] call_ensures(
            convert,
            (l,),
            r->Ok_0,
        ),
{
    proof {
        lemma_trees_view_len(term.args@);
    }
    if term.args.len() == 1 {
        let left: L = match <L as FromTree>::from_tree(&term.args[0]) {
            Ok(l) => l,
            Err(e) => {
                return Err(e);
            },
        };
        let out = convert(left);
        let res: Result<T, Error> = Ok(out);
        proof {
            assert(call_ensures(convert, (left,), out));
            assert(res->Ok_0 == out);
            assert(exists|l: L| #[trigger] call_ensures(convert, (l,), res->Ok_0));
        }
        res
    } else {
        Err(errstr(term.name))
    }
}

/// Attempts to parse an expression with exactly two children: both children
/// are built through [`FromTree`] and handed to a caller-supplied
/// conversion.
pub fn binary<L: FromTree, R: FromTree, T, F: FnOnce(L, R) -> T>(
    term: &Tree<'_>,
    convert: F,
) -> (r: Result<T, Error>)
    requires
        forall|l: L, rr: R| call_requires(convert, (l, rr)),
    ensures
        term@.args.len() != 2 ==> (r matches Err(Error::Unexpected(m)) && m@ == term.name@),
        term@.args.len() == 2 && r is Ok ==> exists|l: L, rr: R| #[trigger] call_ensures(
            convert,
            (l, rr),
            r->Ok_0,
        ),
{
    proof {
        lemma_trees_view_len(term.args@);
    }
    if term.args.len() == 2 {
        let left: L = match <L as FromTree>::from_tree(&term.args[0]) {
            Ok(l) => l,
            Err(e) => {
                return Err(e);
            },
        };
        let right: R = match <R as FromTree>::from_tree(&term.args[1]) {
            Ok(x) => x,
            Err(e) => {
                return Err(e);
            },
        };
        let out = convert(left, right);
        let res: Result<T, Error> = Ok(out);
        proof {
            assert(call_ensures(convert, (left, right), out));
            assert(res->Ok_0 == out);
            assert(exists|l: L, rr: R| #[trigger] call_ensures(convert, (l, rr), res->Ok_0));
        }
        res
    } else {
        Err(errstr(term.name))
    }
}

} // verus!
