//! Tests of the expression-tree parser.

use descriptor_core::expression::error::{ParseThresholdError, ParseTreeError};
use descriptor_core::expression::{binary, parse_num, terminal, unary, FromTree, Tree};
use descriptor_core::{Error, ThresholdError};

/// Builds a leaf node.
fn leaf(name: &str) -> Tree<'_> {
    Tree { name, args: vec![] }
}

/// Builds an inner node.
fn paren_node<'a>(name: &'a str, args: Vec<Tree<'a>>) -> Tree<'a> {
    Tree { name, args }
}

#[test]
fn test_parse_num() {
    assert!(parse_num("0").is_ok());
    assert!(parse_num("00").is_err());
    assert!(parse_num("0000").is_err());
    assert!(parse_num("06").is_err());
    assert!(parse_num("+6").is_err());
    assert!(parse_num("-6").is_err());
}

#[test]
fn parse_tree_basic() {
    assert_eq!(Tree::from_str("thresh").unwrap(), leaf("thresh"));

    assert!(matches!(
        Tree::from_str("thresh,").unwrap_err(),
        Error::ParseTree(ParseTreeError::TrailingCharacter { ch: ',', pos: 6 }),
    ));

    assert!(matches!(
        Tree::from_str("thresh,thresh").unwrap_err(),
        Error::ParseTree(ParseTreeError::TrailingCharacter { ch: ',', pos: 6 }),
    ));

    assert!(matches!(
        Tree::from_str("thresh()thresh()").unwrap_err(),
        Error::ParseTree(ParseTreeError::TrailingCharacter { ch: 't', pos: 8 }),
    ));

    assert_eq!(Tree::from_str("thresh()").unwrap(), paren_node("thresh", vec![leaf("")]));

    assert!(matches!(
        Tree::from_str("thresh(a()b)"),
        Err(Error::ParseTree(ParseTreeError::ExpectedParenOrComma { ch: 'b', pos: 10 })),
    ));

    assert!(matches!(
        Tree::from_str("thresh()xyz"),
        Err(Error::ParseTree(ParseTreeError::TrailingCharacter { ch: 'x', pos: 8 })),
    ));
}

#[test]
fn parse_tree_parens() {
    assert!(matches!(
        Tree::from_str("a(").unwrap_err(),
        Error::ParseTree(ParseTreeError::UnmatchedOpenParen { ch: '(', pos: 1 }),
    ));

    assert!(matches!(
        Tree::from_str(")").unwrap_err(),
        Error::ParseTree(ParseTreeError::UnmatchedCloseParen { ch: ')', pos: 0 }),
    ));

    assert!(matches!(
        Tree::from_str("x(y))").unwrap_err(),
        Error::ParseTree(ParseTreeError::TrailingCharacter { ch: ')', pos: 4 }),
    ));

    assert!(matches!(
        Tree::from_str("x(y)}").unwrap_err(),
        Error::ParseTree(ParseTreeError::TrailingCharacter { ch: '}', pos: 4 }),
    ));
}

#[test]
fn unmatched_open_reports_outermost() {
    // With several delimiters left open, the error names the outermost
    // unclosed opener, whatever follows it.
    assert!(matches!(
        Tree::from_str("((").unwrap_err(),
        Error::ParseTree(ParseTreeError::UnmatchedOpenParen { ch: '(', pos: 0 }),
    ));
    assert!(matches!(
        Tree::from_str("a(b(").unwrap_err(),
        Error::ParseTree(ParseTreeError::UnmatchedOpenParen { ch: '(', pos: 1 }),
    ));
    assert!(matches!(
        Tree::from_str("a(b(c(d").unwrap_err(),
        Error::ParseTree(ParseTreeError::UnmatchedOpenParen { ch: '(', pos: 1 }),
    ));
}

#[test]
fn parse_tree_taproot() {
    assert!(matches!(
        Tree::from_str("a{b(c),d}").unwrap_err(),
        Error::ParseTree(ParseTreeError::TrailingCharacter { ch: ',', pos: 6 }),
    ));
}

#[test]
fn parse_tree_desc() {
    let keys = [
        "02c2fd50ceae468857bb7eb32ae9cd4083e6c7e42fbbec179d81134b3e3830586c",
        "0257f4a2816338436cccabc43aa724cf6e69e43e84c3c8a305212761389dd73a8a",
    ];
    let desc = format!("wsh(t:or_c(pk({}),v:pkh({})))", keys[0], keys[1]);

    assert_eq!(
        Tree::from_str(&desc).unwrap(),
        paren_node(
            "wsh",
            vec![paren_node(
                "t:or_c",
                vec![
                    paren_node("pk", vec![leaf(keys[0])]),
                    paren_node("v:pkh", vec![leaf(keys[1])]),
                ]
            )]
        ),
    );
}

#[test]
fn parse_num_values() {
    assert_eq!(parse_num("10").unwrap(), 10);
    assert_eq!(parse_num("4294967295").unwrap(), u32::MAX);
    assert!(parse_num("4294967296").is_err());
    assert!(parse_num("").is_err());
    assert!(parse_num("1a").is_err());
    assert_eq!(parse_num("9").unwrap(), 9);
}

#[test]
fn parse_rejects_disallowed_characters() {
    assert!(matches!(
        Tree::from_str("a\u{e9}b").unwrap_err(),
        Error::ParseTree(ParseTreeError::InvalidCharacter { ch: '\u{e9}', pos: 1 }),
    ));
    assert!(matches!(
        Tree::from_str("\n").unwrap_err(),
        Error::ParseTree(ParseTreeError::InvalidCharacter { ch: '\n', pos: 0 }),
    ));
}

#[test]
fn stray_other_family_closer_is_rejected() {
    // The pre-check accepts a closer of either family directly after a
    // nested closer, so this input passes the structural scan; the descent
    // then finds a brace where only a comma or a round closer can stand,
    // and rejects the input rather than building a tree for it.
    assert!(matches!(
        Tree::from_str("a(b()}c)").unwrap_err(),
        Error::Unexpected(_),
    ));
}

#[test]
fn braces_are_ordinary_in_round_mode() {
    // A brace is an ordinary name character for the round-bracket parser.
    assert!(matches!(
        Tree::from_str("x{y}").unwrap(),
        Tree { name: "x{y}", .. },
    ));
}

#[test]
fn depth_limit_exceeded() {
    // Nest one level beyond the fixed maximum of 402.
    let mut s = String::new();
    for _ in 0..403 {
        s.push_str("a(");
    }
    s.push('x');
    for _ in 0..403 {
        s.push(')');
    }
    assert!(matches!(
        Tree::from_str(&s).unwrap_err(),
        Error::ParseTree(ParseTreeError::MaxRecursionDepthExceeded { actual: 403, maximum: 402 }),
    ));
}

#[test]
fn depth_limit_reached_and_equality_is_iterative() {
    // Exactly the maximum depth parses, and comparing two such trees uses
    // the explicit worklist, so neither parsing nor equality overflows the
    // call stack.
    let mut s = String::new();
    for _ in 0..402 {
        s.push_str("a(");
    }
    s.push('x');
    for _ in 0..402 {
        s.push(')');
    }
    let t1 = Tree::from_str(&s).unwrap();
    let t2 = Tree::from_str(&s).unwrap();
    // Reflexive and symmetric on independently parsed trees.
    assert!(t1 == t1);
    assert!(t1 == t2);
    assert!(t2 == t1);
}

#[test]
fn equality_distinguishes_shapes() {
    let a = Tree::from_str("thresh(a,b)").unwrap();
    let b = Tree::from_str("thresh(a,c)").unwrap();
    let c = Tree::from_str("thresh(a)").unwrap();
    assert!(a != b);
    assert!(a != c);
    assert_eq!(a, Tree::from_str("thresh(a,b)").unwrap());
}

#[test]
fn from_slice_leaves_remainder() {
    let (t, rem) = Tree::from_slice("abc()").unwrap();
    assert_eq!(t, paren_node("abc", vec![leaf("")]));
    assert_eq!(rem, "");
}

#[test]
fn to_null_threshold_shapes() {
    let t = Tree::from_str("thresh(2,a,b,c)").unwrap();
    let th = t.to_null_threshold::<20>().unwrap();
    assert_eq!(th.k(), 2);
    assert_eq!(th.n(), 3);

    let t = Tree::from_str("thresh").unwrap();
    assert_eq!(t.to_null_threshold::<20>().unwrap_err(), ParseThresholdError::NoChildren);

    let t = Tree::from_str("thresh(x(y),a)").unwrap();
    assert_eq!(t.to_null_threshold::<20>().unwrap_err(), ParseThresholdError::KNotTerminal);

    let t = Tree::from_str("thresh(zz,a)").unwrap();
    assert!(matches!(
        t.to_null_threshold::<20>().unwrap_err(),
        ParseThresholdError::ParseK(_),
    ));

    let t = Tree::from_str("thresh(5,a)").unwrap();
    assert_eq!(
        t.to_null_threshold::<20>().unwrap_err(),
        ParseThresholdError::Threshold(ThresholdError::OverThreshold(5, 1)),
    );

    let t = Tree::from_str("thresh(0,a)").unwrap();
    assert_eq!(
        t.to_null_threshold::<20>().unwrap_err(),
        ParseThresholdError::Threshold(ThresholdError::ZeroThreshold),
    );

    let t = Tree::from_str("thresh(1,a,b,c)").unwrap();
    assert_eq!(
        t.to_null_threshold::<2>().unwrap_err(),
        ParseThresholdError::Threshold(ThresholdError::TooManyElements(3, 2)),
    );
}

/// A tiny node type for driving the arity combinators.
#[derive(Debug, PartialEq)]
struct Named(String);

impl FromTree for Named {
    fn from_tree(top: &Tree<'_>) -> Result<Self, Error> {
        if top.args.is_empty() {
            Ok(Named(top.name.to_string()))
        } else {
            Err(Error::Unexpected(top.name.to_string()))
        }
    }
}

#[test]
fn terminal_checks_arity() {
    let t = Tree::from_str("pk").unwrap();
    let got: String = terminal(&t, |s: &str| Ok(s.to_string())).unwrap();
    assert_eq!(got, "pk");

    let t = Tree::from_str("pk(a)").unwrap();
    let r: Result<String, Error> = terminal(&t, |s: &str| Ok(s.to_string()));
    assert!(matches!(r.unwrap_err(), Error::Unexpected(m) if m == "pk"));
}

#[test]
fn unary_checks_arity() {
    let t = Tree::from_str("w(x)").unwrap();
    let got: Named = unary(&t, |n: Named| n).unwrap();
    assert_eq!(got, Named("x".to_string()));

    let t = Tree::from_str("w(x,y)").unwrap();
    let r: Result<Named, Error> = unary(&t, |n: Named| n);
    assert!(matches!(r.unwrap_err(), Error::Unexpected(m) if m == "w"));
}

#[test]
fn binary_checks_arity() {
    let t = Tree::from_str("and(x,y)").unwrap();
    let got: (Named, Named) = binary(&t, |l: Named, r: Named| (l, r)).unwrap();
    assert_eq!(got, (Named("x".to_string()), Named("y".to_string())));

    let t = Tree::from_str("and(x)").unwrap();
    let r: Result<(Named, Named), Error> = binary(&t, |l: Named, r: Named| (l, r));
    assert!(matches!(r.unwrap_err(), Error::Unexpected(m) if m == "and"));
}

#[test]
fn nested_tree_structure() {
    let t = Tree::from_str("or(and(a,b),c)").unwrap();
    assert_eq!(
        t,
        paren_node(
            "or",
            vec![paren_node("and", vec![leaf("a"), leaf("b")]), leaf("c")],
        ),
    );
}
