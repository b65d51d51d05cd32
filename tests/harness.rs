use hantu::engine::{ArchiveFormat, BinaryFormat, DataFormat, GrammarTemplate, ImageFormat};
use hantu::harness::{classify_exit, dedup_corpus, file_mode_args, parse_dict, ExitAction};

#[test]
fn exit_codes_are_classified() {
    assert_eq!(classify_exit(true, Some(0)), ExitAction::Pass);
    for code in 4..=15 {
        assert_eq!(classify_exit(false, Some(code)), ExitAction::Crash(code));
    }
    assert_eq!(classify_exit(false, Some(1)), ExitAction::Ignore(1));
    assert_eq!(classify_exit(false, Some(16)), ExitAction::Ignore(16));
    assert_eq!(classify_exit(false, Some(3)), ExitAction::Ignore(3));
    assert_eq!(classify_exit(false, None), ExitAction::Signalled);
}

#[test]
fn dictionary_lines() {
    let d = parse_dict(&b"GET\nPOST\n\nPUT".to_vec());
    assert_eq!(d, vec![b"GET".to_vec(), b"POST".to_vec(), Vec::new()]);
    assert!(parse_dict(&Vec::new()).is_empty());
    assert_eq!(parse_dict(&b"\n".to_vec()), vec![Vec::<u8>::new()]);
}

#[test]
fn corpus_entries_are_unique_and_nonempty() {
    let entries = vec![b"a".to_vec(), Vec::new(), b"b".to_vec(), b"a".to_vec()];
    let c = dedup_corpus(&entries);
    assert_eq!(c, vec![b"a".to_vec(), b"b".to_vec()]);
}

#[test]
fn input_file_marker_is_replaced() {
    let args = vec!["-x".to_string(), "@@".to_string(), "@@".to_string()];
    let out = file_mode_args(&args, &".tmp_inp_0".to_string()).unwrap();
    assert_eq!(out, vec!["-x".to_string(), ".tmp_inp_0".to_string(), "@@".to_string()]);
    assert!(file_mode_args(&vec!["-x".to_string()], &"f".to_string()).is_none());
}

#[test]
fn template_names_and_paths() {
    assert_eq!(GrammarTemplate::from_name("json"), GrammarTemplate::DataFormat(DataFormat::Json));
    assert_eq!(GrammarTemplate::from_name("png"), GrammarTemplate::ImageFormat(ImageFormat::Png));
    assert_eq!(GrammarTemplate::from_name("json").get_path(), "grammars/json.json");
    let custom = GrammarTemplate::from_name("my/grammar.json");
    assert_eq!(custom, GrammarTemplate::Custom("my/grammar.json".to_string()));
    assert_eq!(custom.get_path(), "my/grammar.json");
}

#[test]
fn template_table_entries() {
    assert_eq!(GrammarTemplate::ArchiveFormat(ArchiveFormat::Lzo).get_path(), "grammars/lzo.json");
    assert_eq!(GrammarTemplate::from_name("sqlite_db"), GrammarTemplate::BinaryFormat(BinaryFormat::SqliteDB));
}
