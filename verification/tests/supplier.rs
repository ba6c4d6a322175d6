use crash_analyzer::symbols::{
    FileError, FileKind, Module, OpenTTDSymbolSupplier, SymbolFailure, SymbolQuery,
};

fn module(debug_file: Option<&str>, debug_identifier: Option<&str>) -> Module {
    Module {
        debug_file: debug_file.map(String::from),
        debug_identifier: debug_identifier.map(String::from),
    }
}

const SYMBOLS: &str = "MODULE Linux x86_64 D3096ED481217FD4C16B29CD9BC208BA0 firefox-bin\n\
FILE 0 foo.c\n\
PUBLIC abcd 10 func 1\n\
FUNC 1000 30 10 some func\n\
1000 30 7 0\n";

#[test]
fn a_complete_module_is_fetched_from_its_location() {
    let supplier = OpenTTDSymbolSupplier::new();
    match supplier.locate_symbols(&module(Some("app.pdb"), Some("ABCDEF0123"))) {
        SymbolQuery::Fetch(url) => {
            assert_eq!(url, "https://symbols.openttd.org/app.pdb/ABCDEF0123/app.sym")
        }
        SymbolQuery::Fail(failure) => panic!("{:?}", failure),
    }
}

#[test]
fn a_module_without_debug_identifier_is_not_found_and_nothing_is_fetched() {
    let supplier = OpenTTDSymbolSupplier::new();
    let query = supplier.locate_symbols(&module(Some("app.pdb"), None));
    assert!(matches!(query, SymbolQuery::Fail(SymbolFailure::NotFound)));
}

#[test]
fn a_module_without_debug_file_is_not_found_and_nothing_is_fetched() {
    let supplier = OpenTTDSymbolSupplier::new();
    let query = supplier.locate_symbols(&module(None, Some("ABCDEF0123")));
    assert!(matches!(query, SymbolQuery::Fail(SymbolFailure::NotFound)));
    let query = supplier.locate_symbols(&module(None, None));
    assert!(matches!(query, SymbolQuery::Fail(SymbolFailure::NotFound)));
}

#[test]
fn an_empty_payload_is_not_found() {
    let supplier = OpenTTDSymbolSupplier::new();
    assert!(matches!(supplier.symbols_fetched(&[]), Err(SymbolFailure::NotFound)));
}

#[test]
fn a_malformed_payload_is_a_parse_failure() {
    let supplier = OpenTTDSymbolSupplier::new();
    let outcome = supplier.symbols_fetched(b"this is not a symbol file\n");
    assert!(matches!(outcome, Err(SymbolFailure::Parse(_, _))));
    let outcome = supplier.symbols_fetched(b"<html>404</html>");
    assert!(matches!(outcome, Err(SymbolFailure::Parse(_, _))));
    let outcome = supplier.symbols_fetched(&[0u8]);
    assert!(matches!(outcome, Err(SymbolFailure::Parse(_, _))));
}

#[test]
fn a_parse_failure_names_the_line() {
    let supplier = OpenTTDSymbolSupplier::new();
    let text = "MODULE Linux x86_64 D3096ED481217FD4C16B29CD9BC208BA0 firefox-bin\nFILE 0 foo.c\nnonsense\n";
    match supplier.symbols_fetched(text.as_bytes()) {
        Err(SymbolFailure::Parse(reason, line)) => {
            assert_eq!(reason, "failed to parse file");
            assert_eq!(line, 2);
        }
        other => panic!("{:?}", other.map(|file| file.files)),
    }
}

#[test]
fn a_sound_payload_is_parsed() {
    let supplier = OpenTTDSymbolSupplier::new();
    let file = supplier.symbols_fetched(SYMBOLS.as_bytes()).unwrap();
    assert_eq!(file.files.get(&0).map(String::as_str), Some("foo.c"));
    assert_eq!(file.files.len(), 1);
    assert_eq!(file.publics.len(), 1);
    assert_eq!(file.functions.get(0x1000).unwrap().name, "some func");
}

#[test]
fn the_same_payload_parses_to_the_same_symbols() {
    let supplier = OpenTTDSymbolSupplier::new();
    let first = supplier.symbols_fetched(SYMBOLS.as_bytes()).unwrap();
    let second = supplier.symbols_fetched(SYMBOLS.as_bytes()).unwrap();
    assert!(first == second);
}

#[test]
fn auxiliary_files_are_never_found() {
    let supplier = OpenTTDSymbolSupplier::new();
    let complete = module(Some("app.pdb"), Some("ABCDEF0123"));
    let bare = module(None, None);
    for kind in [FileKind::BreakpadSym, FileKind::Binary, FileKind::ExtraDebugInfo] {
        assert_eq!(supplier.locate_file(&complete, kind), Err(FileError::NotFound));
        assert_eq!(supplier.locate_file(&bare, kind), Err(FileError::NotFound));
    }
}
