//! The settings file `nsay.toml`: its shape and defaults, and the
//! surgical rewrite of `[backend].choice` that keeps the user's comments
//! and the order of the other entries (through `toml_edit`).
use vstd::prelude::*;

use toml_edit::DocumentMut;

verus! {

/// The name of the settings file, next to the executable.
pub const CONFIG_NAME: &'static str = "nsay.toml";

/// The whole settings file.
pub struct Config {
    pub backend: BackendCfg,
    pub models: ModelsCfg,
    pub rembg: ToolCfg,
    pub upscale: ToolCfg,
    pub interp: ToolCfg,
    pub ui: UiCfg,
}

/// `[backend]`: which backend to use ("auto" by default).
pub struct BackendCfg {
    pub choice: String,
}

/// `[models]`: where models are kept ("models" by default, relative to the
/// user data directory).
pub struct ModelsCfg {
    pub dir: String,
}

/// A tool's section: the model it uses (empty for the catalogue default).
pub struct ToolCfg {
    pub model: String,
}

/// `[ui]`: the theme ("system" by default).
pub struct UiCfg {
    pub theme: String,
}

impl Default for BackendCfg {
    fn default() -> (r: Self)
        ensures
            r.choice@ == "auto"@,
    {
        BackendCfg { choice: String::from_str("auto") }
    }
}

impl Default for ModelsCfg {
    fn default() -> (r: Self)
        ensures
            r.dir@ == "models"@,
    {
        ModelsCfg { dir: String::from_str("models") }
    }
}

impl Default for ToolCfg {
    fn default() -> (r: Self)
        ensures
            r.model@ == Seq::<char>::empty(),
    {
        ToolCfg { model: String::new() }
    }
}

impl Default for UiCfg {
    fn default() -> (r: Self)
        ensures
            r.theme@ == "system"@,
    {
        UiCfg { theme: String::from_str("system") }
    }
}

/// The settings of a first run: the defaults of each section, with the
/// background removal and upscale models named.
pub open spec fn is_first_run_config(c: Config) -> bool {
    &&& c.backend.choice@ == "auto"@
    &&& c.models.dir@ == "models"@
    &&& c.rembg.model@ == "bria-rmbg-1.4"@
    &&& c.upscale.model@ == "real-esrgan-x4plus"@
    &&& c.interp.model@ == Seq::<char>::empty()
    &&& c.ui.theme@ == "system"@
}

impl Config {
    /// The settings used when there is no settings file.
    pub fn default_with_files() -> (r: Config)
        ensures
            is_first_run_config(r),
    {
        Config {
            backend: BackendCfg::default(),
            models: ModelsCfg::default(),
            rembg: ToolCfg { model: String::from_str("bria-rmbg-1.4") },
            upscale: ToolCfg { model: String::from_str("real-esrgan-x4plus") },
            interp: ToolCfg { model: String::new() },
            ui: UiCfg::default(),
        }
    }
}

impl Default for Config {
    fn default() -> (r: Self)
        ensures
            is_first_run_config(r),
    {
        Config::default_with_files()
    }
}

// ---------------------------------------------------------------------
// The editable document
// ---------------------------------------------------------------------

#[verifier::external_type_specification]
#[verifier::external_body]
pub struct ExDocumentMut(toml_edit::DocumentMut);

/// The keys of a document's root table that hold an item.
pub uninterp spec fn doc_keys(d: DocumentMut) -> Set<Seq<char>>;

/// The keys of a document's root table that hold a (standard, not inline)
/// table.
pub uninterp spec fn doc_table_keys(d: DocumentMut) -> Set<Seq<char>>;

/// The string values held directly in the root's standard tables, by
/// (table, key).
pub uninterp spec fn doc_table_strings(d: DocumentMut) -> Map<(Seq<char>, Seq<char>), Seq<char>>;

/// What `toml_edit` parses a text into: the root's keys, its table keys
/// and the string values of its tables (`None` when the text is not TOML).
pub uninterp spec fn spec_parse_toml(raw: Seq<char>) -> Option<
    (Set<Seq<char>>, Set<Seq<char>>, Map<(Seq<char>, Seq<char>), Seq<char>>),
>;

/// `raw.parse::<DocumentMut>()`: the document, when the text is TOML.
/// Claimed here: whether it parses, and what the document then holds, are
/// functions of the text.
#[verifier::external_body]
fn parse_document(raw: &str) -> (r: Option<DocumentMut>)
    ensures
        r is Some <==> spec_parse_toml(raw@) is Some,
        r matches Some(d) ==> spec_parse_toml(raw@) == Some(
            (doc_keys(d), doc_table_keys(d), doc_table_strings(d)),
        ),
{
    raw.parse::<DocumentMut>().ok()
}

/// `DocumentMut::new()`: a document with an empty root table.
#[verifier::external_body]
fn new_document() -> (r: DocumentMut)
    ensures
        doc_keys(r).is_empty(),
        doc_table_keys(r).is_empty(),
        doc_table_strings(r).dom().is_empty(),
{
    DocumentMut::new()
}

/// `Table::contains_key` on the root table.
#[verifier::external_body]
fn doc_contains_key(d: &DocumentMut, key: &str) -> (r: bool)
    ensures
        r == doc_keys(*d).contains(key@),
{
    d.contains_key(key)
}

/// `Table::contains_table` on the root table.
#[verifier::external_body]
fn doc_contains_table(d: &DocumentMut, key: &str) -> (r: bool)
    ensures
        r == doc_table_keys(*d).contains(key@),
{
    d.contains_table(key)
}

/// `Table::insert(key, toml_edit::table())` on the root table, for a key
/// that holds nothing: the key then holds an empty standard table.
#[verifier::external_body]
fn doc_insert_table(d: &mut DocumentMut, key: &str)
    requires
        !doc_keys(*old(d)).contains(key@),
    ensures
        doc_keys(*final(d)) == doc_keys(*old(d)).insert(key@),
        doc_table_keys(*final(d)) == doc_table_keys(*old(d)).insert(key@),
        doc_table_strings(*final(d)) == doc_table_strings(*old(d)),
{
    d.insert(key, toml_edit::table());
}

/// `table[key] = toml_edit::value(v)` in the root's standard table
/// `table`: the key then holds the string `v`.
#[verifier::external_body]
fn doc_set_string(d: &mut DocumentMut, table: &str, key: &str, v: &str)
    requires
        doc_table_keys(*old(d)).contains(table@),
    ensures
        doc_keys(*final(d)) == doc_keys(*old(d)),
        doc_table_keys(*final(d)) == doc_table_keys(*old(d)),
        doc_table_strings(*final(d)) == doc_table_strings(*old(d)).insert((table@, key@), v@),
{
    if let Some(t) = d.get_mut(table).and_then(|i| i.as_table_mut()) {
        t[key] = toml_edit::value(v);
    }
}

/// The text a document renders to.
pub uninterp spec fn doc_text(d: DocumentMut) -> Seq<char>;

/// `DocumentMut::to_string`: the document's text, with the formatting and
/// comments it was parsed with. Claimed here: the text is a function of the
/// document.
#[verifier::external_body]
fn document_text(d: &DocumentMut) -> (r: String)
    ensures
        r@ == doc_text(*d),
{
    d.to_string()
}

/// What the contracts see of a document: its root's keys, its table keys
/// and the string values of its tables.
pub type DocModel = (Set<Seq<char>>, Set<Seq<char>>, Map<(Seq<char>, Seq<char>), Seq<char>>);

pub open spec fn doc_model(d: DocumentMut) -> DocModel {
    (doc_keys(d), doc_table_keys(d), doc_table_strings(d))
}

/// The document a settings text starts from: what it parses into, or an
/// empty document when it is not TOML.
pub open spec fn initial_model(raw: Seq<char>) -> DocModel {
    match spec_parse_toml(raw) {
        Some(m) => m,
        None => (Set::empty(), Set::empty(), Map::empty()),
    }
}

/// Recording `choice` as `[backend].choice`: a missing `backend` key
/// becomes a table holding it; a `backend` table gets it; a `backend` key
/// holding anything else leaves the document as it is.
pub open spec fn put_backend_model(m: DocModel, choice: Seq<char>) -> DocModel {
    if !m.0.contains("backend"@) {
        (m.0.insert("backend"@), m.1.insert("backend"@), m.2.insert(("backend"@, "choice"@), choice))
    } else if m.1.contains("backend"@) {
        (m.0, m.1, m.2.insert(("backend"@, "choice"@), choice))
    } else {
        m
    }
}

/// Set `[backend].choice` in a document: a missing `[backend]` table is
/// added; a `backend` key that holds something other than a table is left
/// alone (and so is the whole document). No other entry changes.
pub fn put_backend_choice(d: &mut DocumentMut, choice: &str)
    ensures
        !doc_keys(*old(d)).contains("backend"@) ==> {
            &&& doc_keys(*final(d)) == doc_keys(*old(d)).insert("backend"@)
            &&& doc_table_keys(*final(d)) == doc_table_keys(*old(d)).insert("backend"@)
            &&& doc_table_strings(*final(d)) == doc_table_strings(*old(d)).insert(
                ("backend"@, "choice"@),
                choice@,
            )
        },
        doc_keys(*old(d)).contains("backend"@) ==> {
            &&& doc_keys(*final(d)) == doc_keys(*old(d))
            &&& doc_table_keys(*final(d)) == doc_table_keys(*old(d))
        },
        doc_table_keys(*old(d)).contains("backend"@) ==> doc_table_strings(*final(d))
            == doc_table_strings(*old(d)).insert(("backend"@, "choice"@), choice@),
        doc_keys(*old(d)).contains("backend"@) && !doc_table_keys(*old(d)).contains("backend"@)
            ==> doc_table_strings(*final(d)) == doc_table_strings(*old(d)),
        doc_model(*final(d)) == put_backend_model(doc_model(*old(d)), choice@),
{
    if !doc_contains_key(d, "backend") {
        doc_insert_table(d, "backend");
    }
    if doc_contains_table(d, "backend") {
        doc_set_string(d, "backend", "choice", choice);
    }
}

/// The settings text after recording `choice`: the rendering of a document
/// that holds what the file's text `raw` parses into (nothing, when it is
/// not TOML) with `[backend].choice` set as `put_backend_model` says.
pub fn with_backend_choice(raw: &str, choice: &str) -> (r: String)
    ensures
        exists|d: DocumentMut|
            r@ == doc_text(d) && doc_model(d) == put_backend_model(initial_model(raw@), choice@),
{
    let mut d = match parse_document(raw) {
        Some(d) => d,
        None => {
            let e = new_document();
            proof {
                assert(doc_table_strings(e) =~= Map::empty());
            }
            e
        },
    };
    assert(doc_model(d) == initial_model(raw@));
    put_backend_choice(&mut d, choice);
    let r = document_text(&d);
    assert(r@ == doc_text(d) && doc_model(d) == put_backend_model(initial_model(raw@), choice@));
    r
}

} // verus!
