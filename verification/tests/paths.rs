use crash_analyzer::symbols::{
    leafname, lookup, replace_or_add_extension, replace_or_add_folded_extension, symbol_url,
    FileLookup, Module, SYMBOL_ROOT,
};

fn module(debug_file: Option<&str>, debug_identifier: Option<&str>) -> Module {
    Module {
        debug_file: debug_file.map(String::from),
        debug_identifier: debug_identifier.map(String::from),
    }
}

#[test]
fn leafname_takes_what_follows_the_last_slash() {
    assert_eq!(leafname("/a/b/c.pdb"), "c.pdb");
}

#[test]
fn leafname_leaves_a_bare_name_unchanged() {
    assert_eq!(leafname("c.pdb"), "c.pdb");
}

#[test]
fn leafname_cuts_at_backslashes_too() {
    assert_eq!(leafname("C:\\build\\bin\\openttd.pdb"), "openttd.pdb");
    assert_eq!(leafname("C:\\build/bin\\sub/openttd.pdb"), "openttd.pdb");
    assert_eq!(leafname("a/b\\c"), "c");
}

#[test]
fn leafname_of_a_path_that_ends_in_a_separator_is_empty() {
    assert_eq!(leafname("a/b/"), "");
    assert_eq!(leafname("/"), "");
    assert_eq!(leafname("\\"), "");
}

#[test]
fn leafname_of_the_empty_path_is_empty() {
    assert_eq!(leafname(""), "");
}

#[test]
fn leafname_counts_characters_not_bytes() {
    assert_eq!(leafname("größe/spiel/zügé.pdb"), "zügé.pdb");
    assert_eq!(leafname("日本/語.sym"), "語.sym");
}

#[test]
fn leafname_is_a_tail_without_separators() {
    for path in ["/a/b/c.pdb", "x\\y", "plain", "a//b", "", "tail/"] {
        let leaf = leafname(path);
        assert!(path.ends_with(leaf));
        assert!(!leaf.contains('/') && !leaf.contains('\\'));
        assert_eq!(leafname(leaf), leaf);
    }
}

#[test]
fn extension_is_replaced() {
    assert_eq!(replace_or_add_extension("app.pdb", "pdb", "sym"), "app.sym");
}

#[test]
fn extension_is_matched_without_regard_to_case() {
    assert_eq!(replace_or_add_extension("APP.PDB", "pdb", "sym"), "APP.sym");
    assert_eq!(replace_or_add_extension("App.Pdb", "pdb", "sym"), "App.sym");
    assert_eq!(replace_or_add_extension("app.pdb", "PDB", "sym"), "app.sym");
}

#[test]
fn extension_is_added_where_there_is_none() {
    assert_eq!(replace_or_add_extension("app", "pdb", "sym"), "app.sym");
}

#[test]
fn another_extension_stays() {
    assert_eq!(replace_or_add_extension("libz.so", "pdb", "sym"), "libz.so.sym");
    assert_eq!(replace_or_add_extension("app.pdb.bak", "pdb", "sym"), "app.pdb.bak.sym");
}

#[test]
fn only_the_last_extension_is_replaced() {
    assert_eq!(replace_or_add_extension("a.b.pdb", "pdb", "sym"), "a.b.sym");
    assert_eq!(replace_or_add_extension("a.pdb.pdb", "pdb", "sym"), "a.pdb.sym");
}

#[test]
fn a_name_that_is_the_extension_without_a_dot_keeps_it() {
    assert_eq!(replace_or_add_extension("pdb", "pdb", "sym"), "pdb.sym");
}

#[test]
fn dots_at_the_ends_are_kept() {
    assert_eq!(replace_or_add_extension(".pdb", "pdb", "sym"), ".sym");
    assert_eq!(replace_or_add_extension("app.", "pdb", "sym"), "app..sym");
    assert_eq!(replace_or_add_extension("", "pdb", "sym"), ".sym");
    assert_eq!(replace_or_add_extension("app.", "", "sym"), "app.sym");
}

#[test]
fn letters_beyond_ascii_are_matched_without_regard_to_case() {
    assert_eq!(replace_or_add_extension("plan.ÄÖ", "äö", "sym"), "plan.sym");
    assert_eq!(replace_or_add_extension("plan.äö", "ÄÖ", "sym"), "plan.sym");
}

#[test]
fn swapped_name_always_ends_in_the_new_extension() {
    for name in ["app.pdb", "APP.PDB", "app", "a.b.c", "", "."] {
        assert!(replace_or_add_extension(name, "pdb", "sym").ends_with(".sym"));
    }
}

#[test]
fn folded_forms_decide_whether_the_last_piece_goes() {
    assert_eq!(replace_or_add_folded_extension("APP.PDB", "pdb", "pdb", "sym"), "APP.sym");
    assert_eq!(replace_or_add_folded_extension("APP.PDB", "PDB", "pdb", "sym"), "APP.PDB.sym");
    assert_eq!(replace_or_add_folded_extension("app", "pdb", "pdb", "sym"), "app.sym");
    assert_eq!(replace_or_add_folded_extension("a.b", "x", "x", "c"), "a.c");
}

#[test]
fn relative_path_of_a_module() {
    let place = lookup(&module(Some("app.pdb"), Some("ABCDEF0123"))).unwrap();
    assert_eq!(place.server_rel, "app.pdb/ABCDEF0123/app.sym");
    assert_eq!(place.cache_rel, "app.pdb/ABCDEF0123/app.sym");
}

#[test]
fn relative_path_uses_the_leaf_of_the_debug_file() {
    let place = lookup(&module(
        Some("C:\\proj\\out\\OpenTTD.PDB"),
        Some("5A9832E5287241C1838ED98914E9B7FF1"),
    ))
    .unwrap();
    assert_eq!(
        place.server_rel,
        "OpenTTD.PDB/5A9832E5287241C1838ED98914E9B7FF1/OpenTTD.sym"
    );
    let place = lookup(&module(Some("/usr/lib/libfoo.so"), Some("ABC"))).unwrap();
    assert_eq!(place.server_rel, "libfoo.so/ABC/libfoo.so.sym");
}

#[test]
fn no_lookup_without_a_debug_identifier() {
    assert!(lookup(&module(Some("app.pdb"), None)).is_none());
}

#[test]
fn no_lookup_without_a_debug_file() {
    assert!(lookup(&module(None, Some("ABCDEF0123"))).is_none());
    assert!(lookup(&module(None, None)).is_none());
}

#[test]
fn lookup_depends_on_the_module_alone() {
    let first = lookup(&module(Some("dir/app.pdb"), Some("ABCDEF0123"))).unwrap();
    let second = lookup(&module(Some("dir/app.pdb"), Some("ABCDEF0123"))).unwrap();
    assert_eq!(first.server_rel, second.server_rel);
    assert_eq!(first.cache_rel, second.cache_rel);
}

#[test]
fn location_is_the_root_a_slash_and_the_relative_path() {
    let place = FileLookup {
        cache_rel: String::from("ignored"),
        server_rel: String::from("app.pdb/ABCDEF0123/app.sym"),
    };
    assert_eq!(
        symbol_url(&place),
        "https://symbols.openttd.org/app.pdb/ABCDEF0123/app.sym"
    );
    assert_eq!(symbol_url(&place), format!("{}/{}", SYMBOL_ROOT, place.server_rel));
}
