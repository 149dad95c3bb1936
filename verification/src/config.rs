//! Configuration: the extension-to-category tables, the localized directory
//! names per language, and the localized error messages.

use vstd::prelude::*;
use crate::organizer::types::Category;
use crate::text::{contains_str, lower_of, lowercase, opt_str_view, replace_username, spec_subst, str_eq};

verus! {

/// Configuration bundle holding file organization rules and localized
/// directory names.  Immutable for the duration of a run.
#[derive(Debug, Clone)]
pub struct Config {
    pub file_extensions: FileExtensions,
    pub localized_dirs: Vec<LocaleDirs>,
    pub error_messages: Vec<LangMessages>,
    pub version: String,
    pub logging: LoggingConfig,
    pub performance: PerformanceConfig,
    pub ui: UiConfig,
}

/// File extension mappings for the categories.
#[derive(Debug, Clone)]
pub struct FileExtensions {
    pub music: Vec<&'static str>,
    pub videos: Vec<&'static str>,
    pub images: Vec<&'static str>,
    pub docs: Vec<&'static str>,
    pub archives: Vec<&'static str>,
    pub code: Vec<&'static str>,
}

/// Localized error messages for one language.
#[derive(Debug, Clone)]
pub struct ErrorMessages {
    pub empty_username: &'static str,
    pub user_not_found: &'static str,
}

/// One logical directory role and its localized on-disk name.
#[derive(Debug, Clone)]
pub struct LocaleEntry {
    pub logical: String,
    pub name: String,
}

/// The directory-name table of one language.
#[derive(Debug, Clone)]
pub struct LocaleDirs {
    pub lang: String,
    pub entries: Vec<LocaleEntry>,
}

/// The error messages of one language.
#[derive(Debug, Clone)]
pub struct LangMessages {
    pub lang: String,
    pub messages: ErrorMessages,
}

/// Logging configuration.
#[derive(Debug, Clone)]
pub struct LoggingConfig {
    pub level: String,
    pub file: Option<String>,
    pub console: bool,
    pub max_file_size: usize,
    pub max_files: usize,
}

/// Performance configuration.
#[derive(Debug, Clone)]
pub struct PerformanceConfig {
    pub max_concurrent_users: usize,
    pub thread_pool_size: usize,
    pub batch_size: usize,
    pub buffer_size: usize,
    pub use_parallel_processing: bool,
}

/// UI configuration.
#[derive(Debug, Clone)]
pub struct UiConfig {
    pub theme: String,
    pub language: String,
    pub auto_refresh: bool,
    pub show_progress: bool,
}

/// Relies on `num_cpus::get`: its documentation promises that the result is
/// always at least one.
#[verifier::external_body]
pub(crate) fn cpu_count() -> (r: usize)
    ensures
        r >= 1,
{
    num_cpus::get()
}

/// The first language table matching `lang`, if any.
pub open spec fn spec_locale_lookup(tables: Seq<LocaleDirs>, lang: Seq<char>) -> Option<LocaleDirs>
    decreases tables.len(),
{
    if tables.len() == 0 {
        None
    } else if tables[0].lang@ == lang {
        Some(tables[0])
    } else {
        spec_locale_lookup(tables.drop_first(), lang)
    }
}

/// The localized name of `logical` in `entries`, if present.
pub open spec fn spec_entry_lookup(entries: Seq<LocaleEntry>, logical: Seq<char>) -> Option<
    Seq<char>,
>
    decreases entries.len(),
{
    if entries.len() == 0 {
        None
    } else if entries[0].logical@ == logical {
        Some(entries[0].name@)
    } else {
        spec_entry_lookup(entries.drop_first(), logical)
    }
}

/// The first message table matching `lang`, if any.
pub open spec fn spec_messages_lookup(tables: Seq<LangMessages>, lang: Seq<char>) -> Option<
    ErrorMessages,
>
    decreases tables.len(),
{
    if tables.len() == 0 {
        None
    } else if tables[0].lang@ == lang {
        Some(tables[0].messages)
    } else {
        spec_messages_lookup(tables.drop_first(), lang)
    }
}

/// The six logical directory roles.
pub open spec fn spec_is_role(r: Seq<char>) -> bool {
    ||| r == "Downloads"@
    ||| r == "Desktop"@
    ||| r == "Music"@
    ||| r == "Videos"@
    ||| r == "Pictures"@
    ||| r == "Documents"@
}

/// The localized directory name for `(lang, logical)`: the table entry when
/// both the language and the role are present, the logical name itself
/// otherwise.
pub open spec fn spec_localized_dir(cfg: Config, lang: Seq<char>, logical: Seq<char>) -> Seq<
    char,
> {
    match spec_locale_lookup(cfg.localized_dirs@, lang) {
        None => logical,
        Some(t) => match spec_entry_lookup(t.entries@, logical) {
            None => logical,
            Some(n) => n,
        },
    }
}

/// The message template selected for `(lang, key)` before substitution: the
/// configured message when the language is known and the key names one of the
/// two messages, else the English fallback for the key.
pub open spec fn spec_message_template(cfg: Config, lang: Seq<char>, key: Seq<char>) -> Seq<
    char,
> {
    let configured = match spec_messages_lookup(cfg.error_messages@, lang) {
        None => Seq::<char>::empty(),
        Some(m) => if key == "empty_username"@ {
            m.empty_username@
        } else if key == "user_not_found"@ {
            m.user_not_found@
        } else {
            Seq::<char>::empty()
        },
    };
    if configured.len() > 0 {
        configured
    } else {
        if key == "empty_username"@ {
            "Empty username. Please enter a valid username."@
        } else if key == "user_not_found"@ {
            "User {username} not found. Please enter a valid username."@
        } else {
            "Unknown error"@
        }
    }
}

/// The final error message: the selected template with every `{username}`
/// placeholder replaced by the user name.
pub open spec fn spec_error_message(
    cfg: Config,
    lang: Seq<char>,
    key: Seq<char>,
    username: Seq<char>,
) -> Seq<char> {
    spec_subst(spec_message_template(cfg, lang, key), username)
}

/// Category of an already-folded extension: the first of the four movable
/// category tables that contains it.
pub open spec fn spec_classify4(e: Seq<char>, fx: FileExtensions) -> Option<Category> {
    if fx.music.deep_view().contains(e) {
        Some(Category::Music)
    } else if fx.videos.deep_view().contains(e) {
        Some(Category::Video)
    } else if fx.images.deep_view().contains(e) {
        Some(Category::Image)
    } else if fx.docs.deep_view().contains(e) {
        Some(Category::Docs)
    } else {
        None
    }
}

/// The lowercase tag of a category.
pub open spec fn spec_category_tag(c: Category) -> Seq<char> {
    match c {
        Category::Music => "music"@,
        Category::Video => "video"@,
        Category::Image => "image"@,
        Category::Docs => "docs"@,
    }
}

/// The tag returned for an already-folded extension: one of the four
/// category tags, or nothing for an uncategorized extension.  The archive
/// and code lists take no part in classification; their extensions are left
/// in place like any other uncategorized ones.
pub open spec fn spec_category_name(e: Seq<char>, fx: FileExtensions) -> Option<Seq<char>> {
    match spec_classify4(e, fx) {
        Some(c) => Some(spec_category_tag(c)),
        None => None,
    }
}

/// Classification follows the table order music, videos, images, docs: an
/// extension found in a table classifies as that table's category unless an
/// earlier table also holds it; an extension in none of the four tables is
/// uncategorized and gets no tag at all.
pub proof fn lemma_classification(e: Seq<char>, fx: FileExtensions)
    ensures
        fx.music.deep_view().contains(e) ==> spec_classify4(e, fx) == Some(Category::Music),
        !fx.music.deep_view().contains(e) && fx.videos.deep_view().contains(e)
            ==> spec_classify4(e, fx) == Some(Category::Video),
        !fx.music.deep_view().contains(e) && !fx.videos.deep_view().contains(e)
            && fx.images.deep_view().contains(e) ==> spec_classify4(e, fx) == Some(
            Category::Image,
        ),
        !fx.music.deep_view().contains(e) && !fx.videos.deep_view().contains(e)
            && !fx.images.deep_view().contains(e) && fx.docs.deep_view().contains(e)
            ==> spec_classify4(e, fx) == Some(Category::Docs),
        !fx.music.deep_view().contains(e) && !fx.videos.deep_view().contains(e)
            && !fx.images.deep_view().contains(e) && !fx.docs.deep_view().contains(e)
            ==> spec_classify4(e, fx) is None,
        spec_classify4(e, fx) is None ==> spec_category_name(e, fx) is None,
{
}

/// Over the default tables the four movable lists are disjoint, so an
/// extension of any one list classifies as that list's own category.
pub proof fn lemma_default_classification(fx: FileExtensions, e: Seq<char>)
    requires
        spec_default_extensions(fx),
    ensures
        fx.music.deep_view().contains(e) ==> spec_classify4(e, fx) == Some(Category::Music),
        fx.videos.deep_view().contains(e) ==> spec_classify4(e, fx) == Some(Category::Video),
        fx.images.deep_view().contains(e) ==> spec_classify4(e, fx) == Some(Category::Image),
        fx.docs.deep_view().contains(e) ==> spec_classify4(e, fx) == Some(Category::Docs),
{
    broadcast use vstd::string::group_string_axioms;

    reveal_strlit("mp3");
    reveal_strlit("ogg");
    reveal_strlit("wav");
    reveal_strlit("flac");
    reveal_strlit("mp4");
    reveal_strlit("avi");
    reveal_strlit("mkv");
    reveal_strlit("mov");
    reveal_strlit("png");
    reveal_strlit("jpg");
    reveal_strlit("jpeg");
    reveal_strlit("gif");
    reveal_strlit("pdf");
    reveal_strlit("txt");
    reveal_strlit("epub");
    assert("mp3"@[0] == 'm' && "ogg"@[0] == 'o' && "wav"@[0] == 'w' && "flac"@[0] == 'f');
    assert("mp4"@[0] == 'm' && "avi"@[0] == 'a' && "mkv"@[0] == 'm' && "mov"@[0] == 'm');
    assert("png"@[0] == 'p' && "jpg"@[0] == 'j' && "jpeg"@[0] == 'j' && "gif"@[0] == 'g');
    assert("pdf"@[0] == 'p' && "txt"@[0] == 't' && "epub"@[0] == 'e');
    assert("mp3"@ != "mp4"@) by {
        assert("mp3"@[2] == '3' && "mp4"@[2] == '4');
    }
    assert("mp3"@ != "mkv"@) by {
        assert("mp3"@[1] == 'p' && "mkv"@[1] == 'k');
    }
    assert("mp3"@ != "mov"@) by {
        assert("mp3"@[1] == 'p' && "mov"@[1] == 'o');
    }
    assert("png"@ != "pdf"@) by {
        assert("png"@[1] == 'n' && "pdf"@[1] == 'd');
    }
    let m = fx.music.deep_view();
    let v = fx.videos.deep_view();
    let im = fx.images.deep_view();
    let d = fx.docs.deep_view();
    if v.contains(e) {
        let j = choose|j: int| 0 <= j < v.len() && v[j] == e;
        if m.contains(e) {
            let i = choose|i: int| 0 <= i < m.len() && m[i] == e;
            assert(m[i] == v[j]);
            assert(false);
        }
    }
    if im.contains(e) {
        let j = choose|j: int| 0 <= j < im.len() && im[j] == e;
        if m.contains(e) {
            let i = choose|i: int| 0 <= i < m.len() && m[i] == e;
            assert(m[i] == im[j]);
            assert(false);
        }
        if v.contains(e) {
            let i = choose|i: int| 0 <= i < v.len() && v[i] == e;
            assert(v[i] == im[j]);
            assert(false);
        }
    }
    if d.contains(e) {
        let j = choose|j: int| 0 <= j < d.len() && d[j] == e;
        if m.contains(e) {
            let i = choose|i: int| 0 <= i < m.len() && m[i] == e;
            assert(m[i] == d[j]);
            assert(false);
        }
        if v.contains(e) {
            let i = choose|i: int| 0 <= i < v.len() && v[i] == e;
            assert(v[i] == d[j]);
            assert(false);
        }
        if im.contains(e) {
            let i = choose|i: int| 0 <= i < im.len() && im[i] == e;
            assert(im[i] == d[j]);
            assert(false);
        }
    }
}

/// Category of an already case-folded extension.
pub fn classify_folded(folded: &str, fx: &FileExtensions) -> (r: Option<Category>)
    ensures
        r == spec_classify4(folded@, *fx),
{
    if contains_str(&fx.music, folded) {
        Some(Category::Music)
    } else if contains_str(&fx.videos, folded) {
        Some(Category::Video)
    } else if contains_str(&fx.images, folded) {
        Some(Category::Image)
    } else if contains_str(&fx.docs, folded) {
        Some(Category::Docs)
    } else {
        None
    }
}

proof fn lemma_locale_lookup_step(tables: Seq<LocaleDirs>, lang: Seq<char>, i: int)
    requires
        0 <= i < tables.len(),
        tables[i].lang@ != lang,
    ensures
        spec_locale_lookup(tables.skip(i), lang) == spec_locale_lookup(tables.skip(i + 1), lang),
{
    assert(tables.skip(i)[0] == tables[i]);
    assert(tables.skip(i).drop_first() =~= tables.skip(i + 1));
}

proof fn lemma_entry_lookup_step(entries: Seq<LocaleEntry>, logical: Seq<char>, i: int)
    requires
        0 <= i < entries.len(),
        entries[i].logical@ != logical,
    ensures
        spec_entry_lookup(entries.skip(i), logical) == spec_entry_lookup(
            entries.skip(i + 1),
            logical,
        ),
{
    assert(entries.skip(i)[0] == entries[i]);
    assert(entries.skip(i).drop_first() =~= entries.skip(i + 1));
}

proof fn lemma_messages_lookup_step(tables: Seq<LangMessages>, lang: Seq<char>, i: int)
    requires
        0 <= i < tables.len(),
        tables[i].lang@ != lang,
    ensures
        spec_messages_lookup(tables.skip(i), lang) == spec_messages_lookup(
            tables.skip(i + 1),
            lang,
        ),
{
    assert(tables.skip(i)[0] == tables[i]);
    assert(tables.skip(i).drop_first() =~= tables.skip(i + 1));
}

proof fn lemma_locale_lookup_none(tables: Seq<LocaleDirs>, lang: Seq<char>)
    requires
        forall|i: int| 0 <= i < tables.len() ==> tables[i].lang@ != lang,
    ensures
        spec_locale_lookup(tables, lang) is None,
    decreases tables.len(),
{
    if tables.len() > 0 {
        assert(tables[0].lang@ != lang);
        assert forall|i: int| 0 <= i < tables.drop_first().len() implies tables.drop_first()[i].lang@
            != lang by {
            assert(tables.drop_first()[i] == tables[i + 1]);
        }
        lemma_locale_lookup_none(tables.drop_first(), lang);
    }
}

/// A language tag that matches no directory-name table falls back to the
/// logical name itself, whatever the role.
pub proof fn lemma_localized_fallback(cfg: Config, lang: Seq<char>, logical: Seq<char>)
    requires
        forall|i: int| 0 <= i < cfg.localized_dirs@.len() ==> cfg.localized_dirs@[i].lang@ != lang,
    ensures
        spec_localized_dir(cfg, lang, logical) == logical,
{
    lemma_locale_lookup_none(cfg.localized_dirs@, lang);
}

impl Config {
    /// The localized directory name for the given language and role, falling
    /// back to the logical name for an unknown language.  A caller asking
    /// for anything but the six roles has a programming error, which the
    /// precondition rules out.
    pub fn get_localized_dir(&self, lang: &str, logical_name: &str) -> (r: String)
        requires
            spec_is_role(logical_name@),
        ensures
            r@ == spec_localized_dir(*self, lang@, logical_name@),
    {
        let ghost tables = self.localized_dirs@;
        proof {
            assert(tables.skip(0) =~= tables);
        }
        let mut i: usize = 0;
        while i < self.localized_dirs.len()
            invariant
                i <= tables.len(),
                tables == self.localized_dirs@,
                spec_locale_lookup(tables, lang@) == spec_locale_lookup(
                    tables.skip(i as int),
                    lang@,
                ),
            decreases tables.len() - i,
        {
            let table = &self.localized_dirs[i];
            if str_eq(table.lang.as_str(), lang) {
                proof {
                    assert(tables.skip(i as int)[0] == tables[i as int]);
                    assert(spec_locale_lookup(tables, lang@) == Some(tables[i as int]));
                }
                let ghost entries = table.entries@;
                proof {
                    assert(entries.skip(0) =~= entries);
                }
                let mut j: usize = 0;
                while j < table.entries.len()
                    invariant
                        j <= entries.len(),
                        entries == table.entries@,
                        spec_locale_lookup(self.localized_dirs@, lang@) matches Some(t)
                            && t.entries@ == entries,
                        spec_entry_lookup(entries, logical_name@) == spec_entry_lookup(
                            entries.skip(j as int),
                            logical_name@,
                        ),
                    decreases entries.len() - j,
                {
                    let entry = &table.entries[j];
                    if str_eq(entry.logical.as_str(), logical_name) {
                        proof {
                            assert(entries.skip(j as int)[0] == entries[j as int]);
                            assert(spec_entry_lookup(entries, logical_name@) == Some(
                                entries[j as int].name@,
                            ));
                        }
                        return entry.name.clone();
                    }
                    proof {
                        lemma_entry_lookup_step(entries, logical_name@, j as int);
                    }
                    j = j + 1;
                }
                return logical_name.to_owned();
            }
            proof {
                lemma_locale_lookup_step(tables, lang@, i as int);
            }
            i = i + 1;
        }
        logical_name.to_owned()
    }

    /// The file extension mappings.
    pub fn get_file_extensions(&self) -> (r: &FileExtensions)
        ensures
            r == &self.file_extensions,
    {
        &self.file_extensions
    }

    /// The localized error message for the given language and key, with the
    /// user name substituted for every `{username}` placeholder.
    pub fn get_error_message(&self, lang: &str, key: &str, username: &str) -> (r: String)
        ensures
            r@ == spec_error_message(*self, lang@, key@, username@),
    {
        let ghost tables = self.error_messages@;
        proof {
            reveal_strlit("");
            assert(tables.skip(0) =~= tables);
        }
        let mut i: usize = 0;
        while i < self.error_messages.len()
            invariant
                i <= tables.len(),
                tables == self.error_messages@,
                spec_messages_lookup(tables, lang@) == spec_messages_lookup(
                    tables.skip(i as int),
                    lang@,
                ),
            decreases tables.len() - i,
        {
            let table = &self.error_messages[i];
            if str_eq(table.lang.as_str(), lang) {
                proof {
                    assert(tables.skip(i as int)[0] == tables[i as int]);
                    assert(spec_messages_lookup(tables, lang@) == Some(
                        tables[i as int].messages,
                    ));
                }
                let message = if str_eq(key, "empty_username") {
                    table.messages.empty_username
                } else if str_eq(key, "user_not_found") {
                    table.messages.user_not_found
                } else {
                    ""
                };
                proof {
                    reveal_strlit("");
                }
                if !message.is_empty() {
                    return replace_username(message, username);
                }
                return Self::fallback_message(key, username);
            }
            proof {
                lemma_messages_lookup_step(tables, lang@, i as int);
            }
            i = i + 1;
        }
        Self::fallback_message(key, username)
    }

    /// The English fallback message for a key, with the placeholder replaced.
    fn fallback_message(key: &str, username: &str) -> (r: String)
        ensures
            r@ == spec_subst(
                if key@ == "empty_username"@ {
                    "Empty username. Please enter a valid username."@
                } else if key@ == "user_not_found"@ {
                    "User {username} not found. Please enter a valid username."@
                } else {
                    "Unknown error"@
                },
                username@,
            ),
    {
        let fallback = if str_eq(key, "empty_username") {
            "Empty username. Please enter a valid username."
        } else if str_eq(key, "user_not_found") {
            "User {username} not found. Please enter a valid username."
        } else {
            "Unknown error"
        };
        replace_username(fallback, username)
    }

    /// The category tag of a file extension, looked up case-insensitively
    /// over the four category tables, or nothing for an uncategorized
    /// extension, which the caller leaves in place.
    pub fn get_file_category(&self, extension: &str) -> (r: Option<&'static str>)
        ensures
            opt_str_view(r) == spec_category_name(lower_of(extension@), self.file_extensions),
    {
        let ext = lowercase(extension);
        match classify_folded(ext.as_str(), &self.file_extensions) {
            Some(Category::Music) => Some("music"),
            Some(Category::Video) => Some("video"),
            Some(Category::Image) => Some("image"),
            Some(Category::Docs) => Some("docs"),
            None => None,
        }
    }
}

/// The default extension tables.
pub open spec fn spec_default_extensions(fx: FileExtensions) -> bool {
    &&& fx.music.deep_view() == seq!["mp3"@, "ogg"@, "wav"@, "flac"@]
    &&& fx.videos.deep_view() == seq!["mp4"@, "avi"@, "mkv"@, "mov"@]
    &&& fx.images.deep_view() == seq!["png"@, "jpg"@, "jpeg"@, "gif"@]
    &&& fx.docs.deep_view() == seq!["pdf"@, "txt"@, "epub"@]
    &&& fx.archives.deep_view() == seq!["zip"@, "rar"@, "7z"@]
    &&& fx.code.deep_view() == seq!["rs"@, "py"@, "js"@]
}

/// The default directory-name tables: English first, Spanish second.
pub open spec fn spec_default_locales(t: Seq<LocaleDirs>) -> bool {
    &&& t.len() == 2
    &&& t[0].lang@ == "en"@
    &&& t[0].entries@.len() == 6
    &&& t[0].entries@[0].logical@ == "Downloads"@ && t[0].entries@[0].name@ == "Downloads"@
    &&& t[0].entries@[1].logical@ == "Desktop"@ && t[0].entries@[1].name@ == "Desktop"@
    &&& t[0].entries@[2].logical@ == "Music"@ && t[0].entries@[2].name@ == "Music"@
    &&& t[0].entries@[3].logical@ == "Videos"@ && t[0].entries@[3].name@ == "Videos"@
    &&& t[0].entries@[4].logical@ == "Pictures"@ && t[0].entries@[4].name@ == "Pictures"@
    &&& t[0].entries@[5].logical@ == "Documents"@ && t[0].entries@[5].name@ == "Documents"@
    &&& t[1].lang@ == "es"@
    &&& t[1].entries@.len() == 6
    &&& t[1].entries@[0].logical@ == "Downloads"@ && t[1].entries@[0].name@ == "Descargas"@
    &&& t[1].entries@[1].logical@ == "Desktop"@ && t[1].entries@[1].name@ == "Escritorio"@
    &&& t[1].entries@[2].logical@ == "Music"@ && t[1].entries@[2].name@ == "Música"@
    &&& t[1].entries@[3].logical@ == "Videos"@ && t[1].entries@[3].name@ == "Vídeos"@
    &&& t[1].entries@[4].logical@ == "Pictures"@ && t[1].entries@[4].name@ == "Imágenes"@
    &&& t[1].entries@[5].logical@ == "Documents"@ && t[1].entries@[5].name@ == "Documentos"@
}

/// The default message tables: English first, Spanish second.
pub open spec fn spec_default_messages(t: Seq<LangMessages>) -> bool {
    &&& t.len() == 2
    &&& t[0].lang@ == "en"@
    &&& t[0].messages.empty_username@ == "Empty username. Please enter a valid username."@
    &&& t[0].messages.user_not_found@
        == "User {username} not found. Please enter a valid username."@
    &&& t[1].lang@ == "es"@
    &&& t[1].messages.empty_username@
        == "Usuario vacío. Por favor, ingrese un nombre de usuario válido."@
    &&& t[1].messages.user_not_found@
        == "Usuario {username} no encontrado. Por favor, ingrese un nombre de usuario válido."@
}

impl Default for FileExtensions {
    /// The built-in extension tables.
    fn default() -> (r: FileExtensions)
        ensures
            spec_default_extensions(r),
    {
        let r = FileExtensions {
            music: vec!["mp3", "ogg", "wav", "flac"],
            videos: vec!["mp4", "avi", "mkv", "mov"],
            images: vec!["png", "jpg", "jpeg", "gif"],
            docs: vec!["pdf", "txt", "epub"],
            archives: vec!["zip", "rar", "7z"],
            code: vec!["rs", "py", "js"],
        };
        proof {
            assert(r.music.deep_view() =~= seq!["mp3"@, "ogg"@, "wav"@, "flac"@]);
            assert(r.videos.deep_view() =~= seq!["mp4"@, "avi"@, "mkv"@, "mov"@]);
            assert(r.images.deep_view() =~= seq!["png"@, "jpg"@, "jpeg"@, "gif"@]);
            assert(r.docs.deep_view() =~= seq!["pdf"@, "txt"@, "epub"@]);
            assert(r.archives.deep_view() =~= seq!["zip"@, "rar"@, "7z"@]);
            assert(r.code.deep_view() =~= seq!["rs"@, "py"@, "js"@]);
        }
        r
    }
}

fn locale_entry(logical: &str, name: &str) -> (r: LocaleEntry)
    ensures
        r.logical@ == logical@,
        r.name@ == name@,
{
    LocaleEntry { logical: logical.to_owned(), name: name.to_owned() }
}

impl Default for Config {
    /// The built-in configuration: the default extension tables, English and
    /// Spanish directory names and error messages, and the baseline logging,
    /// performance and UI settings.
    fn default() -> (r: Config)
        ensures
            spec_default_extensions(r.file_extensions),
            spec_default_locales(r.localized_dirs@),
            spec_default_messages(r.error_messages@),
            r.version@ == "0.3.0"@,
            r.logging.level@ == "info"@,
            r.logging.file is None,
            r.logging.console,
            r.logging.max_file_size == 10 * 1024 * 1024,
            r.logging.max_files == 5,
            r.performance.max_concurrent_users == 4,
            r.performance.thread_pool_size >= 1,
            r.performance.batch_size == 100,
            r.performance.buffer_size == 8192,
            r.performance.use_parallel_processing,
            r.ui.theme@ == "default"@,
            r.ui.language@ == "en"@,
            r.ui.auto_refresh,
            r.ui.show_progress,
    {
        let english_dirs = vec![
            locale_entry("Downloads", "Downloads"),
            locale_entry("Desktop", "Desktop"),
            locale_entry("Music", "Music"),
            locale_entry("Videos", "Videos"),
            locale_entry("Pictures", "Pictures"),
            locale_entry("Documents", "Documents"),
        ];
        let spanish_dirs = vec![
            locale_entry("Downloads", "Descargas"),
            locale_entry("Desktop", "Escritorio"),
            locale_entry("Music", "Música"),
            locale_entry("Videos", "Vídeos"),
            locale_entry("Pictures", "Imágenes"),
            locale_entry("Documents", "Documentos"),
        ];
        let localized_dirs = vec![
            LocaleDirs { lang: "en".to_owned(), entries: english_dirs },
            LocaleDirs { lang: "es".to_owned(), entries: spanish_dirs },
        ];
        let error_messages = vec![
            LangMessages {
                lang: "en".to_owned(),
                messages: ErrorMessages {
                    empty_username: "Empty username. Please enter a valid username.",
                    user_not_found: "User {username} not found. Please enter a valid username.",
                },
            },
            LangMessages {
                lang: "es".to_owned(),
                messages: ErrorMessages {
                    empty_username: "Usuario vacío. Por favor, ingrese un nombre de usuario válido.",
                    user_not_found: "Usuario {username} no encontrado. Por favor, ingrese un nombre de usuario válido.",
                },
            },
        ];
        Config {
            version: "0.3.0".to_owned(),
            file_extensions: FileExtensions::default(),
            localized_dirs,
            error_messages,
            logging: LoggingConfig {
                level: "info".to_owned(),
                file: None,
                console: true,
                max_file_size: 10 * 1024 * 1024,
                max_files: 5,
            },
            performance: PerformanceConfig {
                max_concurrent_users: 4,
                thread_pool_size: cpu_count(),
                batch_size: 100,
                buffer_size: 8192,
                use_parallel_processing: true,
            },
            ui: UiConfig {
                theme: "default".to_owned(),
                language: "en".to_owned(),
                auto_refresh: true,
                show_progress: true,
            },
        }
    }
}

} // verus!
