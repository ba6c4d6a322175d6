//! Where a module's symbols live in the remote archive, and what a symbol
//! supplier decides before and after the one fetch that it asks for.
//!
//! The supplier never touches the network itself. Locating symbols is two
//! decisions with a fetch between them: [`OpenTTDSymbolSupplier::locate_symbols`]
//! names the location to fetch, or fails at once, and
//! [`OpenTTDSymbolSupplier::symbols_fetched`] says what the fetched bytes
//! amount to.

use crate::text::{
    cut_after_last, free_of, glued, has_suffix, last_piece_start, lemma_earlier_pieces,
    lemma_glue_one_more, lemma_glue_pieces, lemma_last_piece, lemma_last_piece_start, pieces,
    same_ignoring_case,
};
use breakpad_symbols::SymbolFile;
use std::path::PathBuf;
use vstd::prelude::*;

verus! {

/// The base location of the symbol archive. A symbol file's location is
/// this, a slash, and the file's relative path.
pub const SYMBOL_ROOT: &'static str = "https://symbols.openttd.org";

/// A symbol table as `breakpad_symbols` parses it. The library carries it
/// from the parser to the caller and never looks inside.
#[verifier::external_type_specification]
#[verifier::external_body]
pub struct ExSymbolFile(SymbolFile);

/// std's I/O error, carried inside [`SymbolFailure::Load`].
#[verifier::external_type_specification]
#[verifier::external_body]
pub struct ExIoError(std::io::Error);

/// std's owned path, the type of a located auxiliary file.
#[verifier::external_type_specification]
#[verifier::external_body]
pub struct ExPathBuf(PathBuf);

/// What identifies the build of a binary that a report names: the name of
/// its debug file and its debug identifier, each of which may be missing.
#[derive(Debug)]
pub struct Module {
    pub debug_file: Option<String>,
    pub debug_identifier: Option<String>,
}

/// The relative paths at which a file is looked for: in a local cache and
/// on the server.
#[derive(Debug)]
pub struct FileLookup {
    pub cache_rel: String,
    pub server_rel: String,
}

/// Why no symbol table came back for a module.
#[derive(Debug)]
pub enum SymbolFailure {
    /// There are no symbols for the module.
    NotFound,
    /// The module lacks its debug file or its debug identifier.
    MissingDebugFileOrId,
    /// The symbol file could not be read.
    Load(std::io::Error),
    /// The symbol file is there and cannot be parsed: the parser's reason
    /// and the line at which it gave up.
    Parse(&'static str, u64),
}

/// The kinds of file that go with a module.
#[derive(Debug, Clone, Copy, PartialEq, Eq)]
pub enum FileKind {
    BreakpadSym,
    Binary,
    ExtraDebugInfo,
}

/// Why no auxiliary file came back for a module.
#[derive(Debug, Clone, Copy, PartialEq, Eq)]
pub enum FileError {
    NotFound,
}

/// What a supplier does first for a module: fetch one location, or fail
/// without fetching anything.
#[derive(Debug)]
pub enum SymbolQuery {
    Fetch(String),
    Fail(SymbolFailure),
}

/// The supplier of symbols from the remote archive under [`SYMBOL_ROOT`].
pub struct OpenTTDSymbolSupplier {}

/// The characters that part a directory from what lies in it, on any
/// platform that a report may come from.
pub open spec fn path_separators() -> Set<char> {
    set!['/', '\\']
}

/// The one character that parts a file name from its extension.
pub open spec fn extension_marks() -> Set<char> {
    set!['.']
}

/// The final segment of `path`: what follows the last separator, or all of
/// `path` where it holds none.
pub open spec fn leaf_of(path: Seq<char>) -> Seq<char> {
    pieces(path, path_separators()).last()
}

/// `name` cut at its dots, without its last piece if `drop_last` says so
/// and there is more than one piece, then with `extension` as the new last
/// piece, glued with dots again.
pub open spec fn with_extension(name: Seq<char>, drop_last: bool, extension: Seq<char>) -> Seq<
    char,
> {
    let bits = pieces(name, extension_marks());
    let kept = if bits.len() > 1 && drop_last {
        bits.drop_last()
    } else {
        bits
    };
    glued(kept.push(extension), seq!['.'])
}

/// `name` with the extension `from` replaced by `to`, or with `to` added
/// where `name` does not end in `from`. Case plays no part in telling
/// whether it does, and what is kept of `name` keeps its case.
pub open spec fn swapped_extension(name: Seq<char>, from: Seq<char>, to: Seq<char>) -> Seq<char> {
    with_extension(
        name,
        same_ignoring_case(pieces(name, extension_marks()).last(), from),
        to,
    )
}

/// The path, relative to the archive's root, of the symbol file of the
/// module with this debug file and this debug identifier: the leaf of the
/// debug file, the identifier, and the leaf again with `sym` for `pdb`.
pub open spec fn relative_symbol_path(debug_file: Seq<char>, debug_id: Seq<char>) -> Seq<char> {
    glued(
        seq![leaf_of(debug_file), debug_id, swapped_extension(leaf_of(debug_file), "pdb"@, "sym"@)],
        seq!['/'],
    )
}

/// The full location of the file at `relative` in the archive.
pub open spec fn symbol_location(relative: Seq<char>) -> Seq<char> {
    SYMBOL_ROOT@ + seq!['/'] + relative
}

impl Module {
    /// The relative path of this module's symbol file, which exists only
    /// where both the debug file and the debug identifier are known.
    pub open spec fn symbol_path(&self) -> Option<Seq<char>> {
        match (self.debug_file, self.debug_identifier) {
            (Some(file), Some(id)) => Some(relative_symbol_path(file@, id@)),
            _ => None,
        }
    }
}

/// The leaf of a path is its longest tail without a separator, and a path
/// without separators is its own leaf.
pub proof fn lemma_leaf_of(path: Seq<char>)
    ensures
        has_suffix(path, leaf_of(path)),
        free_of(leaf_of(path), path_separators()),
        leaf_of(path).len() < path.len() ==> path_separators().contains(
            path[path.len() - leaf_of(path).len() - 1],
        ),
        free_of(path, path_separators()) ==> leaf_of(path) == path,
{
    lemma_last_piece(path, path_separators());
    lemma_last_piece_start(path, path_separators());
    if free_of(path, path_separators()) {
        assert(path.skip(0) =~= path);
    }
}

/// Taking the leaf twice changes nothing.
pub proof fn lemma_leaf_of_leaf(path: Seq<char>)
    ensures
        leaf_of(leaf_of(path)) == leaf_of(path),
{
    lemma_leaf_of(path);
    lemma_leaf_of(leaf_of(path));
}

/// What [`with_extension`] amounts to: the name, cut before its last dot
/// where the last piece is dropped, then a dot and the extension.
pub proof fn lemma_with_extension(name: Seq<char>, drop_last: bool, extension: Seq<char>)
    ensures
        with_extension(name, drop_last, extension) == (if drop_last && last_piece_start(
            name,
            extension_marks(),
        ) > 0 {
            name.take(last_piece_start(name, extension_marks()) - 1)
        } else {
            name
        }) + seq!['.'] + extension,
        has_suffix(with_extension(name, drop_last, extension), seq!['.'] + extension),
{
    let marks = extension_marks();
    let bits = pieces(name, marks);
    let start = last_piece_start(name, marks);
    lemma_last_piece(name, marks);
    lemma_last_piece_start(name, marks);
    let stem = if drop_last && start > 0 {
        name.take(start - 1)
    } else {
        name
    };
    if drop_last && start > 0 {
        lemma_earlier_pieces(name, marks);
        lemma_last_piece(stem, marks);
        lemma_glue_pieces(stem, '.');
        lemma_glue_one_more(bits.drop_last(), seq!['.'], extension);
    } else {
        lemma_glue_pieces(name, '.');
        lemma_glue_one_more(bits, seq!['.'], extension);
    }
    let whole = stem + seq!['.'] + extension;
    assert(with_extension(name, drop_last, extension) == whole);
    assert(whole.skip(whole.len() - (seq!['.'] + extension).len()) =~= seq!['.'] + extension);
}

/// A name that has a dot, and behind its last dot the extension `from` in
/// whatever case, keeps what stands before that dot and gets `to` behind
/// it.
pub proof fn lemma_extension_replaced(name: Seq<char>, from: Seq<char>, to: Seq<char>)
    requires
        !free_of(name, extension_marks()),
        same_ignoring_case(name.skip(last_piece_start(name, extension_marks())), from),
    ensures
        swapped_extension(name, from, to) == name.take(
            last_piece_start(name, extension_marks()) - 1,
        ) + seq!['.'] + to,
{
    lemma_last_piece(name, extension_marks());
    lemma_last_piece_start(name, extension_marks());
    lemma_with_extension(name, true, to);
}

/// A name without a dot, or with something else than `from` behind its
/// last dot, is kept whole and gets a dot and `to` behind it.
pub proof fn lemma_extension_added(name: Seq<char>, from: Seq<char>, to: Seq<char>)
    requires
        free_of(name, extension_marks()) || !same_ignoring_case(
            name.skip(last_piece_start(name, extension_marks())),
            from,
        ),
    ensures
        swapped_extension(name, from, to) == name + seq!['.'] + to,
{
    lemma_last_piece(name, extension_marks());
    lemma_last_piece_start(name, extension_marks());
    lemma_with_extension(name, true, to);
    lemma_with_extension(name, false, to);
}

/// The relative path written out: leaf, slash, identifier, slash, symbol
/// file name.
pub proof fn lemma_relative_symbol_path(debug_file: Seq<char>, debug_id: Seq<char>)
    ensures
        relative_symbol_path(debug_file, debug_id) == leaf_of(debug_file) + seq!['/'] + debug_id
            + seq!['/'] + swapped_extension(leaf_of(debug_file), "pdb"@, "sym"@),
{
    let leaf = leaf_of(debug_file);
    let name = swapped_extension(leaf, "pdb"@, "sym"@);
    let joint = seq!['/'];
    assert(seq![leaf, debug_id, name] =~= seq![leaf].push(debug_id).push(name));
    lemma_glue_one_more(seq![leaf], joint, debug_id);
    lemma_glue_one_more(seq![leaf].push(debug_id), joint, name);
}

/// What `breakpad_symbols::SymbolFile::from_bytes` makes of `bytes`: the
/// symbol table, or the reason why there is none.
pub uninterp spec fn parsed_symbols(bytes: Seq<u8>) -> Result<SymbolFile, SymbolFailure>;

/// Calls `breakpad_symbols::SymbolFile::from_bytes`, which parses a symbol
/// file held in memory, and hands its error over variant by variant.
///
/// Taken on trust: the result depends on the bytes alone, and a failure is
/// either the parser's own `ParseError` or, for a read that failed,
/// `LoadError`; the parser reports nothing as not found.
#[verifier::external_body]
fn parse_symbol_file(bytes: &[u8]) -> (parsed: Result<SymbolFile, SymbolFailure>)
    ensures
        parsed == parsed_symbols(bytes@),
        parsed matches Err(failure) ==> failure is Parse || failure is Load,
{
    match SymbolFile::from_bytes(bytes) {
        Ok(file) => Ok(file),
        Err(breakpad_symbols::SymbolError::NotFound) => Err(SymbolFailure::NotFound),
        Err(breakpad_symbols::SymbolError::MissingDebugFileOrId) => Err(
            SymbolFailure::MissingDebugFileOrId,
        ),
        Err(breakpad_symbols::SymbolError::LoadError(error)) => Err(SymbolFailure::Load(error)),
        Err(breakpad_symbols::SymbolError::ParseError(reason, line)) => Err(
            SymbolFailure::Parse(reason, line),
        ),
    }
}

/// The final segment of `path`, cut at either kind of slash.
pub fn leafname(path: &str) -> (leaf: &str)
    ensures
        leaf@ == leaf_of(path@),
        has_suffix(path@, leaf@),
        free_of(leaf@, path_separators()),
        free_of(path@, path_separators()) ==> leaf@ == path@,
{
    let start = cut_after_last(path, '/', '\\');
    let length = path.unicode_len();
    proof {
        assert(set!['/', '\\'] =~= path_separators());
        lemma_last_piece(path@, path_separators());
        lemma_leaf_of(path@);
        assert(path@.subrange(start as int, length as int) =~= path@.skip(start as int));
    }
    path.substring_char(start, length)
}

/// `filename` with `new_extension` for its extension, given the lower-case
/// forms of its last dot-separated piece and of the extension to replace:
/// `folded_last` and `folded_match`. Where the two are equal and
/// `filename` has a dot, its last piece makes way for `new_extension`;
/// otherwise `new_extension` is added behind a dot.
pub fn replace_or_add_folded_extension(
    filename: &str,
    folded_last: &str,
    folded_match: &str,
    new_extension: &str,
) -> (swapped: String)
    ensures
        swapped@ == with_extension(filename@, folded_last@ == folded_match@, new_extension@),
        has_suffix(swapped@, seq!['.'] + new_extension@),
        free_of(filename@, extension_marks()) ==> swapped@ == filename@ + seq!['.']
            + new_extension@,
{
    let cut = cut_after_last(filename, '.', '.');
    proof {
        assert(set!['.', '.'] =~= extension_marks());
        lemma_with_extension(filename@, folded_last@ == folded_match@, new_extension@);
        lemma_last_piece_start(filename@, extension_marks());
        reveal_strlit(".");
        assert("."@ =~= seq!['.']);
    }
    let mut swapped = if cut > 0 && folded_last.eq(folded_match) {
        let stem = filename.substring_char(0, cut - 1);
        proof {
            assert(filename@.subrange(0, cut - 1) =~= filename@.take(cut - 1));
        }
        stem.to_owned()
    } else {
        filename.to_owned()
    };
    swapped.append(".");
    swapped.append(new_extension);
    swapped
}

/// `filename` with the extension `match_extension` replaced by
/// `new_extension`, or with `new_extension` added where `filename` does not
/// end in `match_extension`. Case plays no part in the comparison.
pub fn replace_or_add_extension(filename: &str, match_extension: &str, new_extension: &str) -> (swapped:
    String)
    ensures
        swapped@ == swapped_extension(filename@, match_extension@, new_extension@),
        has_suffix(swapped@, seq!['.'] + new_extension@),
        free_of(filename@, extension_marks()) ==> swapped@ == filename@ + seq!['.']
            + new_extension@,
{
    let cut = cut_after_last(filename, '.', '.');
    let length = filename.unicode_len();
    let last = filename.substring_char(cut, length);
    proof {
        assert(set!['.', '.'] =~= extension_marks());
        lemma_last_piece(filename@, extension_marks());
        assert(filename@.subrange(cut as int, length as int) =~= filename@.skip(cut as int));
    }
    let folded_last = last.to_lowercase();
    let folded_match = match_extension.to_lowercase();
    replace_or_add_folded_extension(
        filename,
        folded_last.as_str(),
        folded_match.as_str(),
        new_extension,
    )
}

/// Where to look for the symbols of `module`: nowhere, if its debug file
/// or its debug identifier is missing.
pub fn lookup(module: &Module) -> (found: Option<FileLookup>)
    ensures
        match module.symbol_path() {
            Some(path) => found matches Some(place) && place.cache_rel@ == path
                && place.server_rel@ == path,
            None => found is None,
        },
        found is None <==> module.debug_file is None || module.debug_identifier is None,
{
    match (&module.debug_file, &module.debug_identifier) {
        (Some(debug_file), Some(debug_id)) => {
            let leaf = leafname(debug_file.as_str());
            let filename = replace_or_add_extension(leaf, "pdb", "sym");
            let mut rel_path = leaf.to_owned();
            rel_path.append("/");
            rel_path.append(debug_id.as_str());
            rel_path.append("/");
            rel_path.append(filename.as_str());
            proof {
                reveal_strlit("/");
                assert("/"@ =~= seq!['/']);
                lemma_relative_symbol_path(debug_file@, debug_id@);
            }
            Some(FileLookup { cache_rel: rel_path.clone(), server_rel: rel_path })
        },
        _ => None,
    }
}

/// The location to fetch for the file at `place`.
pub fn symbol_url(place: &FileLookup) -> (url: String)
    ensures
        url@ == symbol_location(place.server_rel@),
{
    let mut url = SYMBOL_ROOT.to_owned();
    url.append("/");
    url.append(place.server_rel.as_str());
    proof {
        reveal_strlit("/");
        assert("/"@ =~= seq!['/']);
    }
    url
}

impl OpenTTDSymbolSupplier {
    pub fn new() -> OpenTTDSymbolSupplier {
        OpenTTDSymbolSupplier {  }
    }

    /// The first half of locating the symbols of `module`: the one location
    /// to fetch, or `NotFound` at once, with nothing to fetch, where the
    /// module lacks its debug file or its debug identifier.
    pub fn locate_symbols(&self, module: &Module) -> (query: SymbolQuery)
        ensures
            match module.symbol_path() {
                Some(path) => query matches SymbolQuery::Fetch(url) && url@ == symbol_location(
                    path,
                ),
                None => query matches SymbolQuery::Fail(SymbolFailure::NotFound),
            },
            query is Fetch <==> module.debug_file is Some && module.debug_identifier is Some,
    {
        match lookup(module) {
            Some(place) => SymbolQuery::Fetch(symbol_url(&place)),
            None => SymbolQuery::Fail(SymbolFailure::NotFound),
        }
    }

    /// The second half: what the fetched `payload` amounts to. An empty
    /// payload means that the archive has no such file. Anything else goes
    /// to the parser, whose verdict stands; a payload that it rejects is
    /// never reported as not found.
    pub fn symbols_fetched(&self, payload: &[u8]) -> (outcome: Result<SymbolFile, SymbolFailure>)
        ensures
            outcome == (if payload@.len() == 0 {
                Err(SymbolFailure::NotFound)
            } else {
                parsed_symbols(payload@)
            }),
            outcome matches Err(SymbolFailure::NotFound) <==> payload@.len() == 0,
            outcome matches Err(failure) ==> failure is NotFound || failure is Parse
                || failure is Load,
    {
        if payload.len() == 0 {
            Err(SymbolFailure::NotFound)
        } else {
            parse_symbol_file(payload)
        }
    }

    /// Auxiliary files are never resolved: whatever the module and the
    /// kind, the answer is `NotFound`.
    pub fn locate_file(&self, module: &Module, file_kind: FileKind) -> (outcome: Result<
        PathBuf,
        FileError,
    >)
        ensures
            outcome == Err::<PathBuf, FileError>(FileError::NotFound),
    {
        Err(FileError::NotFound)
    }
}

} // verus!
