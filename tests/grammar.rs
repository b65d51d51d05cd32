use hantu::generators::Xorshift64;
use hantu::grammar::{Grammar, Token, TokenIdentifier};
use hantu::prng::{Generator, Rng};

fn create_simple_dummy_grammar() -> Grammar {
    let tokens = vec![
        Token::NonTerminal(vec![TokenIdentifier(1)]),
        Token::OrderedExpansion(vec![TokenIdentifier(2), TokenIdentifier(3)]),
        Token::Terminal(b"A".to_vec()),
        Token::Terminal(b"B".to_vec()),
        Token::Nop,
        Token::OrderedExpansion(vec![
            TokenIdentifier(2),
            TokenIdentifier(4),
            TokenIdentifier(3),
        ]),
    ];

    let token_map = vec![("<start>".to_string(), TokenIdentifier(0))];

    Grammar {
        start: Some(TokenIdentifier(0)),
        tokens,
        token_map,
    }
}

#[test]
fn test_simple_optimization() {
    let mut grammar = create_simple_dummy_grammar();
    grammar.optimize();

    let optimized_tokens = vec![
        Token::OrderedExpansion(vec![TokenIdentifier(2), TokenIdentifier(3)]),
        Token::OrderedExpansion(vec![TokenIdentifier(2), TokenIdentifier(3)]),
        Token::Terminal(b"A".to_vec()),
        Token::Terminal(b"B".to_vec()),
        Token::Nop,
        Token::OrderedExpansion(vec![
            TokenIdentifier(2),
            TokenIdentifier(4),
            TokenIdentifier(3),
        ]),
    ];

    let optimized_token_map = vec![("<start>".to_string(), TokenIdentifier(0))];

    let expected_optimized_grammar = Grammar {
        start: Some(TokenIdentifier(0)),
        tokens: optimized_tokens,
        token_map: optimized_token_map,
    };

    assert_eq!(grammar, expected_optimized_grammar);
}

fn create_complex_dummy_grammar() -> Grammar {
    let tokens = vec![
        Token::NonTerminal(vec![TokenIdentifier(1)]),
        Token::OrderedExpansion(vec![TokenIdentifier(2), TokenIdentifier(3)]),
        Token::Terminal(b"A".to_vec()),
        Token::Terminal(b"B".to_vec()),
        Token::NonTerminal(vec![TokenIdentifier(5)]),
        Token::OrderedExpansion(vec![TokenIdentifier(6), TokenIdentifier(7)]),
        Token::Terminal(b"C".to_vec()),
        Token::Terminal(b"D".to_vec()),
        Token::Nop,
        Token::OrderedExpansion(vec![TokenIdentifier(8)]),
        Token::OrderedExpansion(vec![
            TokenIdentifier(2),
            TokenIdentifier(8),
            TokenIdentifier(3),
        ]),
    ];

    let token_map = vec![("<start>".to_string(), TokenIdentifier(0))];

    Grammar {
        start: Some(TokenIdentifier(0)),
        tokens,
        token_map,
    }
}

fn create_optimized_complex_dummy_grammar() -> Grammar {
    let tokens = vec![
        Token::OrderedExpansion(vec![TokenIdentifier(2), TokenIdentifier(3)]),
        Token::OrderedExpansion(vec![TokenIdentifier(2), TokenIdentifier(3)]),
        Token::Terminal(b"A".to_vec()),
        Token::Terminal(b"B".to_vec()),
        Token::OrderedExpansion(vec![TokenIdentifier(6), TokenIdentifier(7)]),
        Token::OrderedExpansion(vec![TokenIdentifier(6), TokenIdentifier(7)]),
        Token::Terminal(b"C".to_vec()),
        Token::Terminal(b"D".to_vec()),
        Token::Nop,
        Token::Nop,
        Token::OrderedExpansion(vec![
            TokenIdentifier(2),
            TokenIdentifier(8),
            TokenIdentifier(3),
        ]),
    ];

    let token_map = vec![("<start>".to_string(), TokenIdentifier(0))];

    Grammar {
        start: Some(TokenIdentifier(0)),
        tokens,
        token_map,
    }
}

#[test]
fn test_complex_optimization() {
    let mut complex_grammar = create_complex_dummy_grammar();
    complex_grammar.optimize();

    let expected_grammar = create_optimized_complex_dummy_grammar();

    assert_eq!(complex_grammar, expected_grammar);
}

#[test]
fn generate_complex_dummy_grammar() {
    let mut prng = Rng::new(Generator::Xorshift64(Xorshift64::new(0xdeadbeefcafebabe)));
    let mut grammar = create_complex_dummy_grammar();

    grammar.optimize();
    let mut res = Vec::new();
    grammar.generate(0, grammar.start.unwrap(), &mut prng, &mut res);
    assert_eq!(res, b"AB");
}

#[test]
fn optimize_twice_changes_nothing() {
    let mut grammar = create_complex_dummy_grammar();
    assert!(grammar.optimize());
    let once = grammar.tokens.clone();
    assert!(grammar.optimize());
    assert_eq!(grammar.tokens, once);
}

#[test]
fn trivial_grammar_yields_ab_for_any_seed() {
    let grammar = Grammar::new(r#"{"<start>": [["A", "B"]]}"#).unwrap();
    for seed in 1..50usize {
        let mut prng = Rng::new(Generator::RomuDuoJr(hantu::generators::RomuDuoJr::new(seed)));
        let mut res = Vec::new();
        grammar.generate(0, grammar.start.unwrap(), &mut prng, &mut res);
        assert_eq!(res, b"AB");
    }
}

#[test]
fn grammar_with_alternatives_and_recursion() {
    let json = r#"{"<start>": [["<digit>", "<start>"], ["<digit>"]], "<digit>": [["0"], ["1"]]}"#;
    let grammar = Grammar::new(json).unwrap();
    let mut prng = Rng::new(Generator::Xorshift64(Xorshift64::new(7)));
    for _ in 0..100 {
        let mut res = Vec::new();
        grammar.generate(0, grammar.start.unwrap(), &mut prng, &mut res);
        assert!(!res.is_empty());
        assert!(res.iter().all(|&b| b == b'0' || b == b'1'));
        // The depth cap bounds the length of any derivation.
        assert!(res.len() <= 129);
    }
}

#[test]
fn grammar_without_start_is_refused() {
    assert!(Grammar::new(r#"{"<begin>": [["A"]]}"#).is_err());
}

#[test]
fn malformed_grammar_is_refused() {
    assert!(Grammar::new(r#"{"<start>": "A"}"#).is_err());
    assert!(Grammar::new("not json").is_err());
}

#[test]
fn depth_beyond_cap_emits_nothing() {
    let grammar = Grammar::new(r#"{"<start>": [["A"]]}"#).unwrap();
    let mut prng = Rng::new(Generator::Xorshift64(Xorshift64::new(3)));
    let mut res = vec![b'x'];
    grammar.generate(129, grammar.start.unwrap(), &mut prng, &mut res);
    assert_eq!(res, b"x");
    grammar.generate(128, grammar.start.unwrap(), &mut prng, &mut res);
    assert_eq!(res, b"xA");
}

#[test]
fn unit_cycle_grammar_converges() {
    let mut grammar = Grammar::new(r#"{"<start>": [["<start>"]]}"#).unwrap();
    assert!(grammar.optimize());
    let mut prng = Rng::new(Generator::Xorshift64(Xorshift64::new(5)));
    let mut res = Vec::new();
    grammar.generate(0, grammar.start.unwrap(), &mut prng, &mut res);
    assert!(res.is_empty());
}

#[test]
fn equal_generator_states_give_equal_output() {
    let json = r#"{"<start>": [["<digit>", "<start>"], ["<digit>"]], "<digit>": [["0"], ["1"]]}"#;
    let grammar = Grammar::new(json).unwrap();
    let mut a = Rng::new(Generator::Xorshift64(Xorshift64::new(11)));
    let mut b = a.clone();
    let (mut x, mut y) = (Vec::new(), Vec::new());
    grammar.generate(0, grammar.start.unwrap(), &mut a, &mut x);
    grammar.generate(0, grammar.start.unwrap(), &mut b, &mut y);
    assert_eq!(x, y);
    assert_eq!(a.rand(), b.rand());
}
