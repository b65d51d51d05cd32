use hantu::engine::{MutationEngine, Mutators, StandardMutators};
use hantu::error::Error;
use hantu::generators::Xorshift64;
use hantu::ni::ni_mutate;
use hantu::prng::{Generator, Generators, Rng};
use std::sync::Arc;

enum TestCondition {
    DataInequality,
    SizeInequality,
    GeneralErrorChecker,
}

fn corpus() -> Arc<Vec<Vec<u8>>> {
    let corpus: Arc<Vec<Vec<u8>>> = Arc::new(vec![
        "ThisIsSomeTest".as_bytes().to_vec(),
        "YetAnotherSimpleInput".as_bytes().to_vec(),
        [0xff].to_vec(),
    ]);
    corpus
}

fn dictionary() -> Vec<Vec<u8>> {
    vec![
        b"GET".to_vec(),
        b"POST".to_vec(),
        b"Content-Length".to_vec(),
        b"<html>".to_vec(),
        b"%s%n".to_vec(),
    ]
}

fn engine(corp: &Arc<Vec<Vec<u8>>>) -> MutationEngine {
    let mut me = MutationEngine::new()
        .set_corpus(corp.clone())
        .set_generator(&Generators::Romuduojr)
        .set_generator_seed(0xdeadbeefcafebabe)
        .set_token_dict(dictionary());
    for _ in 0..128 {
        let tc_size = me.prng.rand_range(1, 4096);
        let tc = me.prng.rand_byte_vec(tc_size);
        me.add_to_corpus(&tc);
    }
    me
}

fn run(m: StandardMutators, tcond: TestCondition) {
    let corpus = corpus();
    let mut engine = engine(&corpus);

    for _ in 0..100_000 {
        engine = engine.set_random_test_case();
        let tc_orig = engine.test_case.data.clone();
        let result: Result<(), Error> = engine.apply(&Mutators::Standard(m));
        if result.is_ok() {
            let tc = engine.test_case.data.clone();
            assert_eq!(engine.test_case.size, tc.len());
            assert!(engine.test_case.data_ptr <= engine.test_case.size);

            match tcond {
                TestCondition::DataInequality => {
                    assert_ne!(tc_orig, tc);
                }
                TestCondition::SizeInequality => {
                    assert_ne!(tc_orig.len(), tc.len());
                }
                TestCondition::GeneralErrorChecker => {}
            };
        }
    }
}

#[test]
fn test_shuffle_bytes() {
    run(StandardMutators::ShuffleBytes, TestCondition::GeneralErrorChecker);
}

#[test]
fn test_erase_bytes() {
    run(StandardMutators::EraseBytes, TestCondition::SizeInequality);
}

#[test]
fn test_insert_bytes() {
    run(StandardMutators::InsertBytes, TestCondition::SizeInequality);
}

#[test]
fn test_swap_endianness() {
    run(StandardMutators::SwapEndianness, TestCondition::GeneralErrorChecker);
}

#[test]
fn test_change_bit() {
    run(StandardMutators::ChangeBit, TestCondition::DataInequality);
}

#[test]
fn test_change_byte() {
    run(StandardMutators::ChangeByte, TestCondition::DataInequality);
}

#[test]
fn test_change_ascii_integer() {
    run(StandardMutators::ChangeASCIIInteger, TestCondition::GeneralErrorChecker);
}

#[test]
fn test_change_binary_integer() {
    run(StandardMutators::ChangeBinaryInteger, TestCondition::GeneralErrorChecker);
}

#[test]
fn test_negate_byte() {
    run(StandardMutators::NegateByte, TestCondition::DataInequality);
}

#[test]
fn test_swap_neighbors() {
    run(StandardMutators::SwapNeighbors, TestCondition::GeneralErrorChecker);
}

#[test]
fn test_arithmetic() {
    run(StandardMutators::ArithmeticWidth, TestCondition::GeneralErrorChecker);
}

#[test]
fn test_truncate() {
    run(StandardMutators::Truncate, TestCondition::SizeInequality);
}

#[test]
fn test_append() {
    run(StandardMutators::Append, TestCondition::SizeInequality);
}

#[test]
fn test_add_from_dict() {
    run(StandardMutators::AddWordFromDict, TestCondition::DataInequality);
}

#[test]
fn test_add_from_magic() {
    run(StandardMutators::AddFromMagic, TestCondition::GeneralErrorChecker);
}

#[test]
fn test_copy_part() {
    run(StandardMutators::CopyPart, TestCondition::DataInequality);
}

#[test]
fn test_cross_over() {
    run(StandardMutators::CrossOver, TestCondition::GeneralErrorChecker);
}

#[test]
fn test_splice() {
    run(StandardMutators::Splice, TestCondition::GeneralErrorChecker);
}

const HTML: &str = "
<!DOCTYPE html>
  <html>
    <body>
      <h1>My 1337 Heading</h1>
      <p>My first paragraph.</p>
    </body>
  </html>";

#[test]
fn test_ni() {
    let corpus: Arc<Vec<Vec<u8>>> = Arc::new(vec![HTML.as_bytes().to_vec()]);

    let mut me = MutationEngine::new().set_corpus(corpus.clone());
    me = me.set_random_test_case();
    let _ = me.apply(&Mutators::Standard(StandardMutators::Ni));
    assert_ne!(corpus[0], me.test_case.data);
}

#[test]
fn ni_mutation_of_html_differs() {
    let corpus = vec![HTML.as_bytes().to_vec()];
    let mut prng = Rng::new(Generator::Xorshift64(Xorshift64::new(0)));
    let data = HTML.as_bytes();
    let mut changed = 0;
    for _ in 0..20 {
        let out = ni_mutate(data, data.len(), &mut prng, &corpus).unwrap();
        if !out.is_empty() && out != data {
            changed += 1;
        }
    }
    assert!(changed > 0);
}

#[test]
fn splice_changes_the_test_case() {
    let corpus: Arc<Vec<Vec<u8>>> = Arc::new(vec![
        "ThisIsSomeTest".as_bytes().to_vec(),
        "YetAnotherSimpleInput".as_bytes().to_vec(),
    ]);
    let mut me = MutationEngine::new()
        .set_corpus(corpus.clone())
        .set_generator(&Generators::Romuduojr)
        .set_generator_seed(0xdeadbeefcafebabe);
    me.set_test_case(&corpus[0]);
    let r = me.apply(&Mutators::Standard(StandardMutators::Splice));
    assert!(r.is_ok());
    assert_ne!(me.test_case.data, b"ThisIsSomeTest".to_vec());
}

#[test]
fn mutate_keeps_size_and_cursor_consistent() {
    let corpus = corpus();
    let mut me = engine(&corpus).set_mutation_passes(4);
    for _ in 0..2000 {
        let tc = me.mutate();
        assert_eq!(tc.size, tc.data.len());
        assert!(tc.data_ptr <= tc.size);
    }
}

#[test]
fn torc_mutator_always_fails() {
    let corpus = corpus();
    let mut me = engine(&corpus);
    me = me.set_random_test_case();
    let before = me.test_case.data.clone();
    assert!(me.apply(&Mutators::Standard(StandardMutators::AddWordFromTORC)).is_err());
    assert_eq!(me.test_case.data, before);
}

#[test]
fn max_mutation_size_is_clamped() {
    let me = MutationEngine::new().set_max_mutation_size(0);
    assert_eq!(me.max_mutation_factor, 10);
    let me = me.set_max_mutation_size(100);
    assert_eq!(me.max_mutation_factor, 10);
    let me = me.set_max_mutation_size(42);
    assert_eq!(me.max_mutation_factor, 42);
}

#[test]
fn new_engine_has_a_random_entry() {
    let mut me = MutationEngine::new();
    assert_eq!(me.corpus.len(), 1);
    assert_eq!(me.corpus[0].len(), 128);
    let tc = me.mutate();
    assert_eq!(tc.size, tc.data.len());
}

#[test]
fn add_to_corpus_leaves_shared_copy_alone() {
    let shared = corpus();
    let mut me = MutationEngine::new().set_corpus(shared.clone());
    me.add_to_corpus(b"extra");
    assert_eq!(shared.len(), 3);
    assert_eq!(me.corpus.len(), 4);
    assert_eq!(me.corpus[3], b"extra".to_vec());
}

#[test]
fn grammar_generator_replaces_the_test_case() {
    let g = hantu::grammar::Grammar::new(r#"{"<start>": [["A", "B"]]}"#).unwrap();
    let mut me = MutationEngine::new().set_grammar(g);
    me.set_test_case(&b"xyz".to_vec());
    assert!(me.apply(&Mutators::Standard(StandardMutators::GrammarGenerator)).is_ok());
    assert_eq!(me.test_case.data, b"AB".to_vec());
}
