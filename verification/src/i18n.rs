//! Runtime app translations. `Language` selects a set of UI strings; `Strings`
//! holds one field per user-facing label/message. All data lives here (no UI
//! dependency) so translations are unit-testable.

use vstd::prelude::*;
use crate::text::{
    all_whitespace, ascii_lowercase, chars_equal, chars_of, count_matches, has_prefix,
    lemma_count_braces_end, lemma_count_braces_pair, lemma_count_braces_run,
    starts_with, to_ascii_lowercase, trim, trimmed_chars, whitespace,
};

verus! {

#[derive(Debug, Clone, Copy, PartialEq, Eq, Structural)]
pub enum Language {
    En,
    It,
    Ro,
}

/// The language a locale string selects: its trimmed, ASCII-lowercased text
/// starting with "it" or "ro"; anything else is English.
pub open spec fn locale_language(loc: Seq<char>) -> Language {
    let lc = ascii_lowercase(trim(loc));
    if has_prefix(lc, seq!['i', 't']) {
        Language::It
    } else if has_prefix(lc, seq!['r', 'o']) {
        Language::Ro
    } else {
        Language::En
    }
}

/// The code persisted in config for a language.
pub open spec fn code_of(l: Language) -> Seq<char> {
    match l {
        Language::En => seq!['e', 'n'],
        Language::It => seq!['i', 't'],
        Language::Ro => seq!['r', 'o'],
    }
}

/// The language a persisted code selects; unknown codes select English.
pub open spec fn language_of_code(s: Seq<char>) -> Language {
    if s == seq!['i', 't'] {
        Language::It
    } else if s == seq!['r', 'o'] {
        Language::Ro
    } else {
        Language::En
    }
}

/// The native display label of a language.
pub open spec fn label_of(l: Language) -> Seq<char> {
    match l {
        Language::En => seq!['E', 'n', 'g', 'l', 'i', 's', 'h'],
        Language::It => seq!['I', 't', 'a', 'l', 'i', 'a', 'n', 'o'],
        Language::Ro => seq!['R', 'o', 'm', 'â', 'n', 'ă'],
    }
}

impl Language {
    /// All languages in display order (used to build the picker).
    pub fn all() -> (r: [Language; 3])
        ensures
            r@ == seq![Language::En, Language::It, Language::Ro],
    {
        [Language::En, Language::It, Language::Ro]
    }

    /// Map an OS locale string (e.g. "it_IT.UTF-8", "ro", "en-US") to a
    /// language. Matches on the leading two-letter code; unknown → English.
    pub fn from_locale(loc: &str) -> (r: Language)
        ensures
            r == locale_language(loc@),
    {
        let t = trimmed_chars(loc);
        let lc = to_ascii_lowercase(t.as_slice());
        let it = vec!['i', 't'];
        let ro = vec!['r', 'o'];
        assert(it@ == seq!['i', 't']);
        assert(ro@ == seq!['r', 'o']);
        if starts_with(lc.as_slice(), it.as_slice()) {
            Language::It
        } else if starts_with(lc.as_slice(), ro.as_slice()) {
            Language::Ro
        } else {
            Language::En
        }
    }

    /// Stable code persisted in config.
    pub fn code(self) -> (r: &'static str)
        ensures
            r@ == code_of(self),
    {
        match self {
            Language::En => {
                proof {
                    reveal_strlit("en");
                }
                "en"
            },
            Language::It => {
                proof {
                    reveal_strlit("it");
                }
                "it"
            },
            Language::Ro => {
                proof {
                    reveal_strlit("ro");
                }
                "ro"
            },
        }
    }

    /// Parse a persisted code; unknown → English.
    pub fn from_code(s: &str) -> (r: Language)
        ensures
            r == language_of_code(s@),
    {
        let v = chars_of(s);
        let it = vec!['i', 't'];
        let ro = vec!['r', 'o'];
        assert(it@ == seq!['i', 't']);
        assert(ro@ == seq!['r', 'o']);
        if chars_equal(v.as_slice(), it.as_slice()) {
            Language::It
        } else if chars_equal(v.as_slice(), ro.as_slice()) {
            Language::Ro
        } else {
            Language::En
        }
    }

    /// Native display label for the picker.
    pub fn label(self) -> (r: &'static str)
        ensures
            r@ == label_of(self),
    {
        match self {
            Language::En => {
                proof {
                    reveal_strlit("English");
                }
                "English"
            },
            Language::It => {
                proof {
                    reveal_strlit("Italiano");
                }
                "Italiano"
            },
            Language::Ro => {
                proof {
                    reveal_strlit("Română");
                }
                "Română"
            },
        }
    }
}

/// Reading a language's persisted code back gives the same language.
pub proof fn code_round_trips(l: Language)
    ensures
        language_of_code(code_of(l)) == l,
{
}

/// A language's code, read as an OS locale, selects the same language.
pub proof fn code_is_a_locale(l: Language)
    ensures
        locale_language(code_of(l)) == l,
{
    let c = code_of(l);
    assert(trim(c) == c) by {
        assert(!whitespace(c[0]));
        assert(c.drop_first().drop_first().len() == 0);
        assert(!whitespace(c.last()));
    }
    assert(ascii_lowercase(c) == c);
    assert(c.subrange(0, 2) == c);
}

/// One user-facing string per field. Named fields make adding a string a
/// compile error until every language provides it.
#[derive(Debug, Clone, PartialEq, Eq)]
pub struct Strings {
    pub app_title: String,
    pub nav_library: String,
    pub nav_downloader: String,
    pub nav_settings: String,
    pub search_placeholder: String,
    pub prev_slide: String,
    pub next_slide: String,
    pub open_in_powerpoint: String,
    pub reveal_in_folder: String,
    pub downloader_heading: String,
    pub downloader_subtitle: String,
    pub downloader_url_placeholder: String,
    pub choose: String,
    pub setting_up_downloader: String,
    pub download_complete: String,
    pub download_failed_prefix: String,
    pub settings_heading: String,
    pub version_prefix: String,
    pub library_heading: String,
    pub force_sync_description: String,
    pub force_sync_button: String,
    pub syncing_button: String,
    pub language_heading: String,
    pub user_libraries_heading: String,
    pub add_folder_button: String,
    pub user_libraries_description: String,
    pub library_unavailable_suffix: String,
    pub nav_themes: String,
    pub themes_heading: String,
    pub theme_new: String,
    pub theme_save: String,
    pub theme_delete: String,
    pub theme_preview_sample: String,
    pub theme_font_label: String,
    pub theme_size_label: String,
    pub theme_weight_label: String,
    pub theme_align_label: String,
    pub theme_text_color_label: String,
    pub theme_bg_color_label: String,
    pub theme_set_active: String,
    pub theme_name_label: String,
    pub nav_control: String,
    pub control_heading: String,
    pub control_start: String,
    pub control_stop: String,
    pub control_blank: String,
    pub control_prev: String,
    pub control_next: String,
    pub control_next_label: String,
    pub control_live: String,
    pub control_output: String,
    pub control_theme: String,
    pub library_project: String,
    pub status_loading: String,
    pub status_library_ready: String,
    pub status_re_cloning: String,
    pub update_checking: String,
    pub update_up_to_date: String,
    pub update_failed: String,
    pub update_unavailable: String,
    pub status_synced_fmt: String,
    pub status_sync_failed_fmt: String,
    pub update_staged_fmt: String,
    pub slide_counter_fmt: String,
    pub slide_zero_fmt: String,
    pub status_indexing: String,
    pub status_indexed_fmt: String,
    pub status_indexing_failed_fmt: String,
}

/// Number of strings in a `Strings` table.
pub const STRINGS_FIELD_COUNT: usize = 68;

/// Position of the synced-status format string among the fields.
pub const SYNCED_FMT_FIELD: usize = 60;
/// Position of the staged-update format string among the fields.
pub const STAGED_FMT_FIELD: usize = 62;
/// Position of the slide-counter format string among the fields.
pub const SLIDE_COUNTER_FMT_FIELD: usize = 63;
/// Position of the sync-failed format string among the fields.
pub const SYNC_FAILED_FMT_FIELD: usize = 61;
/// Position of the no-slides format string among the fields.
pub const SLIDE_ZERO_FMT_FIELD: usize = 64;
/// Position of the indexed-status format string among the fields.
pub const INDEXED_FMT_FIELD: usize = 66;
/// Position of the indexing-failed format string among the fields.
pub const INDEXING_FAILED_FMT_FIELD: usize = 67;

/// The translation table of a language, field by field (in declaration order).
pub open spec fn strings_table(lang: Language) -> Seq<Seq<char>> {
    match lang {
        Language::En => seq![
            "SDA Manager"@,
            "Library"@,
            "Video Downloader"@,
            "Settings"@,
            "Search by number, title, or lyrics…"@,
            "‹ Prev"@,
            "Next ›"@,
            "Open in PowerPoint"@,
            "Reveal in folder"@,
            "Video Downloader"@,
            "Paste a YouTube link and choose where to save it."@,
            "Paste a YouTube URL…"@,
            "Choose…"@,
            "Setting up downloader…"@,
            "✓ Download complete"@,
            "Download failed: "@,
            "Settings"@,
            "Version "@,
            "Library"@,
            "Force sync deletes the local hymn library and cache, then re-downloads and reindexes everything."@,
            "Force sync library"@,
            "Syncing…"@,
            "Language"@,
            "Your library folders"@,
            "Add folder…"@,
            "Add your own folders of .pptx hymns. They're searched alongside the built-in library."@,
            "  (unavailable)"@,
            "Themes"@,
            "Themes"@,
            "New theme"@,
            "Save"@,
            "Delete"@,
            "Plecaţi-vă lui Dumnezeu"@,
            "Font"@,
            "Size"@,
            "Weight"@,
            "Align"@,
            "Text color"@,
            "Background"@,
            "Set as active"@,
            "Name"@,
            "Control"@,
            "Control"@,
            "▶ Start projecting"@,
            "■ Stop"@,
            "Blank (B)"@,
            "◀ Prev"@,
            "Next ▶"@,
            "NEXT"@,
            "LIVE"@,
            "Output"@,
            "Theme"@,
            "Project"@,
            "Loading hymn library…"@,
            "Library ready."@,
            "Re-cloning and reindexing…"@,
            "Checking for updates…"@,
            "Up to date."@,
            "Update check failed."@,
            "Couldn't check for updates — try later."@,
            "Synced — indexed {} hymns."@,
            "Sync failed: {}"@,
            "Update {} staged — restart to apply."@,
            "{} — slide {}/{}"@,
            "{} — 0 slides"@,
            "Indexing…"@,
            "Indexed {} hymns."@,
            "Indexing failed: {}"@,
        ],
        Language::It => seq![
            "SDA Manager"@,
            "Innario"@,
            "Scarica video"@,
            "Impostazioni"@,
            "Cerca per numero, titolo o testo…"@,
            "‹ Prec"@,
            "Succ ›"@,
            "Apri in PowerPoint"@,
            "Mostra nella cartella"@,
            "Scarica video"@,
            "Incolla un link di YouTube e scegli dove salvarlo."@,
            "Incolla un URL di YouTube…"@,
            "Scegli…"@,
            "Preparazione del downloader…"@,
            "✓ Download completato"@,
            "Download non riuscito: "@,
            "Impostazioni"@,
            "Versione "@,
            "Innario"@,
            "La sincronizzazione forzata elimina l'innario locale e la cache, poi riscarica e reindicizza tutto."@,
            "Sincronizza innario"@,
            "Sincronizzazione…"@,
            "Lingua"@,
            "Le tue cartelle"@,
            "Aggiungi cartella…"@,
            "Aggiungi le tue cartelle di inni .pptx. Vengono cercate insieme all'innario integrato."@,
            "  (non disponibile)"@,
            "Temi"@,
            "Temi"@,
            "Nuovo tema"@,
            "Salva"@,
            "Elimina"@,
            "Plecaţi-vă lui Dumnezeu"@,
            "Carattere"@,
            "Dimensione"@,
            "Spessore"@,
            "Allinea"@,
            "Colore testo"@,
            "Sfondo"@,
            "Imposta come attivo"@,
            "Nome"@,
            "Controllo"@,
            "Controllo"@,
            "▶ Avvia proiezione"@,
            "■ Ferma"@,
            "Schermo nero (B)"@,
            "◀ Prec"@,
            "Succ ▶"@,
            "PROSSIMO"@,
            "IN ONDA"@,
            "Uscita"@,
            "Tema"@,
            "Proietta"@,
            "Caricamento dell'innario…"@,
            "Innario pronto."@,
            "Riscaricamento e reindicizzazione…"@,
            "Ricerca aggiornamenti…"@,
            "Aggiornato."@,
            "Controllo aggiornamenti non riuscito."@,
            "Impossibile controllare gli aggiornamenti — riprova più tardi."@,
            "Sincronizzato — {} inni indicizzati."@,
            "Sincronizzazione non riuscita: {}"@,
            "Aggiornamento {} pronto — riavvia per applicarlo."@,
            "{} — diapositiva {}/{}"@,
            "{} — 0 diapositive"@,
            "Indicizzazione…"@,
            "Indicizzati {} inni."@,
            "Indicizzazione non riuscita: {}"@,
        ],
        Language::Ro => seq![
            "SDA Manager"@,
            "Imnar"@,
            "Descărcare video"@,
            "Setări"@,
            "Caută după număr, titlu sau vers…"@,
            "‹ Înapoi"@,
            "Înainte ›"@,
            "Deschide în PowerPoint"@,
            "Arată în folder"@,
            "Descărcare video"@,
            "Lipește un link YouTube și alege unde să-l salvezi."@,
            "Lipește un URL YouTube…"@,
            "Alege…"@,
            "Se pregătește descărcătorul…"@,
            "✓ Descărcare finalizată"@,
            "Descărcare eșuată: "@,
            "Setări"@,
            "Versiunea "@,
            "Imnar"@,
            "Sincronizarea forțată șterge imnarul local și memoria cache, apoi descarcă și reindexează totul."@,
            "Sincronizează imnarul"@,
            "Se sincronizează…"@,
            "Limbă"@,
            "Folderele tale"@,
            "Adaugă folder…"@,
            "Adaugă propriile foldere cu imnuri .pptx. Sunt căutate împreună cu imnarul integrat."@,
            "  (indisponibil)"@,
            "Teme"@,
            "Teme"@,
            "Temă nouă"@,
            "Salvează"@,
            "Șterge"@,
            "Plecaţi-vă lui Dumnezeu"@,
            "Font"@,
            "Dimensiune"@,
            "Grosime"@,
            "Aliniere"@,
            "Culoare text"@,
            "Fundal"@,
            "Setează ca activ"@,
            "Nume"@,
            "Control"@,
            "Control"@,
            "▶ Începe proiecția"@,
            "■ Oprește"@,
            "Ecran negru (B)"@,
            "◀ Înapoi"@,
            "Înainte ▶"@,
            "URMĂTORUL"@,
            "ÎN DIRECT"@,
            "Ieșire"@,
            "Temă"@,
            "Proiectează"@,
            "Se încarcă imnarul…"@,
            "Imnar pregătit."@,
            "Se reclonează și se reindexează…"@,
            "Se caută actualizări…"@,
            "La zi."@,
            "Verificarea actualizărilor a eșuat."@,
            "Nu s-au putut verifica actualizările — încearcă mai târziu."@,
            "Sincronizat — {} imnuri indexate."@,
            "Sincronizare eșuată: {}"@,
            "Actualizarea {} este pregătită — repornește pentru a o aplica."@,
            "{} — diapozitivul {}/{}"@,
            "{} — 0 diapozitive"@,
            "Se indexează…"@,
            "{} imnuri indexate."@,
            "Indexare eșuată: {}"@,
        ],
    }
}

impl Strings {
    /// The field values, in declaration order.
    pub open spec fn fields(&self) -> Seq<Seq<char>> {
        seq![
            self.app_title@,
            self.nav_library@,
            self.nav_downloader@,
            self.nav_settings@,
            self.search_placeholder@,
            self.prev_slide@,
            self.next_slide@,
            self.open_in_powerpoint@,
            self.reveal_in_folder@,
            self.downloader_heading@,
            self.downloader_subtitle@,
            self.downloader_url_placeholder@,
            self.choose@,
            self.setting_up_downloader@,
            self.download_complete@,
            self.download_failed_prefix@,
            self.settings_heading@,
            self.version_prefix@,
            self.library_heading@,
            self.force_sync_description@,
            self.force_sync_button@,
            self.syncing_button@,
            self.language_heading@,
            self.user_libraries_heading@,
            self.add_folder_button@,
            self.user_libraries_description@,
            self.library_unavailable_suffix@,
            self.nav_themes@,
            self.themes_heading@,
            self.theme_new@,
            self.theme_save@,
            self.theme_delete@,
            self.theme_preview_sample@,
            self.theme_font_label@,
            self.theme_size_label@,
            self.theme_weight_label@,
            self.theme_align_label@,
            self.theme_text_color_label@,
            self.theme_bg_color_label@,
            self.theme_set_active@,
            self.theme_name_label@,
            self.nav_control@,
            self.control_heading@,
            self.control_start@,
            self.control_stop@,
            self.control_blank@,
            self.control_prev@,
            self.control_next@,
            self.control_next_label@,
            self.control_live@,
            self.control_output@,
            self.control_theme@,
            self.library_project@,
            self.status_loading@,
            self.status_library_ready@,
            self.status_re_cloning@,
            self.update_checking@,
            self.update_up_to_date@,
            self.update_failed@,
            self.update_unavailable@,
            self.status_synced_fmt@,
            self.status_sync_failed_fmt@,
            self.update_staged_fmt@,
            self.slide_counter_fmt@,
            self.slide_zero_fmt@,
            self.status_indexing@,
            self.status_indexed_fmt@,
            self.status_indexing_failed_fmt@,
        ]
    }

    pub fn for_language(lang: Language) -> (r: Strings)
        ensures
            r.fields() == strings_table(lang),
    {
        match lang {
            Language::En => Strings::en(),
            Language::It => Strings::it(),
            Language::Ro => Strings::ro(),
        }
    }

    /// All field values, for completeness checks.
    pub fn as_fields(&self) -> (r: Vec<&str>)
        ensures
            r.len() == self.fields().len(),
            forall|i: int| 0 <= i < r.len() ==> (#[trigger] r@[i])@ == self.fields()[i],
    {
        let mut v: Vec<&str> = Vec::new();
        v.push(self.app_title.as_str());
        v.push(self.nav_library.as_str());
        v.push(self.nav_downloader.as_str());
        v.push(self.nav_settings.as_str());
        v.push(self.search_placeholder.as_str());
        v.push(self.prev_slide.as_str());
        v.push(self.next_slide.as_str());
        v.push(self.open_in_powerpoint.as_str());
        v.push(self.reveal_in_folder.as_str());
        v.push(self.downloader_heading.as_str());
        v.push(self.downloader_subtitle.as_str());
        v.push(self.downloader_url_placeholder.as_str());
        v.push(self.choose.as_str());
        v.push(self.setting_up_downloader.as_str());
        v.push(self.download_complete.as_str());
        v.push(self.download_failed_prefix.as_str());
        v.push(self.settings_heading.as_str());
        v.push(self.version_prefix.as_str());
        v.push(self.library_heading.as_str());
        v.push(self.force_sync_description.as_str());
        v.push(self.force_sync_button.as_str());
        v.push(self.syncing_button.as_str());
        v.push(self.language_heading.as_str());
        v.push(self.user_libraries_heading.as_str());
        v.push(self.add_folder_button.as_str());
        v.push(self.user_libraries_description.as_str());
        v.push(self.library_unavailable_suffix.as_str());
        v.push(self.nav_themes.as_str());
        v.push(self.themes_heading.as_str());
        v.push(self.theme_new.as_str());
        v.push(self.theme_save.as_str());
        v.push(self.theme_delete.as_str());
        v.push(self.theme_preview_sample.as_str());
        v.push(self.theme_font_label.as_str());
        v.push(self.theme_size_label.as_str());
        v.push(self.theme_weight_label.as_str());
        v.push(self.theme_align_label.as_str());
        v.push(self.theme_text_color_label.as_str());
        v.push(self.theme_bg_color_label.as_str());
        v.push(self.theme_set_active.as_str());
        v.push(self.theme_name_label.as_str());
        v.push(self.nav_control.as_str());
        v.push(self.control_heading.as_str());
        v.push(self.control_start.as_str());
        v.push(self.control_stop.as_str());
        v.push(self.control_blank.as_str());
        v.push(self.control_prev.as_str());
        v.push(self.control_next.as_str());
        v.push(self.control_next_label.as_str());
        v.push(self.control_live.as_str());
        v.push(self.control_output.as_str());
        v.push(self.control_theme.as_str());
        v.push(self.library_project.as_str());
        v.push(self.status_loading.as_str());
        v.push(self.status_library_ready.as_str());
        v.push(self.status_re_cloning.as_str());
        v.push(self.update_checking.as_str());
        v.push(self.update_up_to_date.as_str());
        v.push(self.update_failed.as_str());
        v.push(self.update_unavailable.as_str());
        v.push(self.status_synced_fmt.as_str());
        v.push(self.status_sync_failed_fmt.as_str());
        v.push(self.update_staged_fmt.as_str());
        v.push(self.slide_counter_fmt.as_str());
        v.push(self.slide_zero_fmt.as_str());
        v.push(self.status_indexing.as_str());
        v.push(self.status_indexed_fmt.as_str());
        v.push(self.status_indexing_failed_fmt.as_str());
        assert(v.len() == self.fields().len());
        v
    }

    fn en() -> (r: Strings)
        ensures
            r.fields() == strings_table(Language::En),
    {
        Strings {
            app_title: String::from_str("SDA Manager"),
            nav_library: String::from_str("Library"),
            nav_downloader: String::from_str("Video Downloader"),
            nav_settings: String::from_str("Settings"),
            search_placeholder: String::from_str("Search by number, title, or lyrics…"),
            prev_slide: String::from_str("‹ Prev"),
            next_slide: String::from_str("Next ›"),
            open_in_powerpoint: String::from_str("Open in PowerPoint"),
            reveal_in_folder: String::from_str("Reveal in folder"),
            downloader_heading: String::from_str("Video Downloader"),
            downloader_subtitle: String::from_str("Paste a YouTube link and choose where to save it."),
            downloader_url_placeholder: String::from_str("Paste a YouTube URL…"),
            choose: String::from_str("Choose…"),
            setting_up_downloader: String::from_str("Setting up downloader…"),
            download_complete: String::from_str("✓ Download complete"),
            download_failed_prefix: String::from_str("Download failed: "),
            settings_heading: String::from_str("Settings"),
            version_prefix: String::from_str("Version "),
            library_heading: String::from_str("Library"),
            force_sync_description: String::from_str("Force sync deletes the local hymn library and cache, then re-downloads and reindexes everything."),
            force_sync_button: String::from_str("Force sync library"),
            syncing_button: String::from_str("Syncing…"),
            language_heading: String::from_str("Language"),
            user_libraries_heading: String::from_str("Your library folders"),
            add_folder_button: String::from_str("Add folder…"),
            user_libraries_description: String::from_str("Add your own folders of .pptx hymns. They're searched alongside the built-in library."),
            library_unavailable_suffix: String::from_str("  (unavailable)"),
            nav_themes: String::from_str("Themes"),
            themes_heading: String::from_str("Themes"),
            theme_new: String::from_str("New theme"),
            theme_save: String::from_str("Save"),
            theme_delete: String::from_str("Delete"),
            theme_preview_sample: String::from_str("Plecaţi-vă lui Dumnezeu"),
            theme_font_label: String::from_str("Font"),
            theme_size_label: String::from_str("Size"),
            theme_weight_label: String::from_str("Weight"),
            theme_align_label: String::from_str("Align"),
            theme_text_color_label: String::from_str("Text color"),
            theme_bg_color_label: String::from_str("Background"),
            theme_set_active: String::from_str("Set as active"),
            theme_name_label: String::from_str("Name"),
            nav_control: String::from_str("Control"),
            control_heading: String::from_str("Control"),
            control_start: String::from_str("▶ Start projecting"),
            control_stop: String::from_str("■ Stop"),
            control_blank: String::from_str("Blank (B)"),
            control_prev: String::from_str("◀ Prev"),
            control_next: String::from_str("Next ▶"),
            control_next_label: String::from_str("NEXT"),
            control_live: String::from_str("LIVE"),
            control_output: String::from_str("Output"),
            control_theme: String::from_str("Theme"),
            library_project: String::from_str("Project"),
            status_loading: String::from_str("Loading hymn library…"),
            status_library_ready: String::from_str("Library ready."),
            status_re_cloning: String::from_str("Re-cloning and reindexing…"),
            update_checking: String::from_str("Checking for updates…"),
            update_up_to_date: String::from_str("Up to date."),
            update_failed: String::from_str("Update check failed."),
            update_unavailable: String::from_str("Couldn't check for updates — try later."),
            status_synced_fmt: String::from_str("Synced — indexed {} hymns."),
            status_sync_failed_fmt: String::from_str("Sync failed: {}"),
            update_staged_fmt: String::from_str("Update {} staged — restart to apply."),
            slide_counter_fmt: String::from_str("{} — slide {}/{}"),
            slide_zero_fmt: String::from_str("{} — 0 slides"),
            status_indexing: String::from_str("Indexing…"),
            status_indexed_fmt: String::from_str("Indexed {} hymns."),
            status_indexing_failed_fmt: String::from_str("Indexing failed: {}"),
        }
    }

    fn it() -> (r: Strings)
        ensures
            r.fields() == strings_table(Language::It),
    {
        Strings {
            app_title: String::from_str("SDA Manager"),
            nav_library: String::from_str("Innario"),
            nav_downloader: String::from_str("Scarica video"),
            nav_settings: String::from_str("Impostazioni"),
            search_placeholder: String::from_str("Cerca per numero, titolo o testo…"),
            prev_slide: String::from_str("‹ Prec"),
            next_slide: String::from_str("Succ ›"),
            open_in_powerpoint: String::from_str("Apri in PowerPoint"),
            reveal_in_folder: String::from_str("Mostra nella cartella"),
            downloader_heading: String::from_str("Scarica video"),
            downloader_subtitle: String::from_str("Incolla un link di YouTube e scegli dove salvarlo."),
            downloader_url_placeholder: String::from_str("Incolla un URL di YouTube…"),
            choose: String::from_str("Scegli…"),
            setting_up_downloader: String::from_str("Preparazione del downloader…"),
            download_complete: String::from_str("✓ Download completato"),
            download_failed_prefix: String::from_str("Download non riuscito: "),
            settings_heading: String::from_str("Impostazioni"),
            version_prefix: String::from_str("Versione "),
            library_heading: String::from_str("Innario"),
            force_sync_description: String::from_str("La sincronizzazione forzata elimina l'innario locale e la cache, poi riscarica e reindicizza tutto."),
            force_sync_button: String::from_str("Sincronizza innario"),
            syncing_button: String::from_str("Sincronizzazione…"),
            language_heading: String::from_str("Lingua"),
            user_libraries_heading: String::from_str("Le tue cartelle"),
            add_folder_button: String::from_str("Aggiungi cartella…"),
            user_libraries_description: String::from_str("Aggiungi le tue cartelle di inni .pptx. Vengono cercate insieme all'innario integrato."),
            library_unavailable_suffix: String::from_str("  (non disponibile)"),
            nav_themes: String::from_str("Temi"),
            themes_heading: String::from_str("Temi"),
            theme_new: String::from_str("Nuovo tema"),
            theme_save: String::from_str("Salva"),
            theme_delete: String::from_str("Elimina"),
            theme_preview_sample: String::from_str("Plecaţi-vă lui Dumnezeu"),
            theme_font_label: String::from_str("Carattere"),
            theme_size_label: String::from_str("Dimensione"),
            theme_weight_label: String::from_str("Spessore"),
            theme_align_label: String::from_str("Allinea"),
            theme_text_color_label: String::from_str("Colore testo"),
            theme_bg_color_label: String::from_str("Sfondo"),
            theme_set_active: String::from_str("Imposta come attivo"),
            theme_name_label: String::from_str("Nome"),
            nav_control: String::from_str("Controllo"),
            control_heading: String::from_str("Controllo"),
            control_start: String::from_str("▶ Avvia proiezione"),
            control_stop: String::from_str("■ Ferma"),
            control_blank: String::from_str("Schermo nero (B)"),
            control_prev: String::from_str("◀ Prec"),
            control_next: String::from_str("Succ ▶"),
            control_next_label: String::from_str("PROSSIMO"),
            control_live: String::from_str("IN ONDA"),
            control_output: String::from_str("Uscita"),
            control_theme: String::from_str("Tema"),
            library_project: String::from_str("Proietta"),
            status_loading: String::from_str("Caricamento dell'innario…"),
            status_library_ready: String::from_str("Innario pronto."),
            status_re_cloning: String::from_str("Riscaricamento e reindicizzazione…"),
            update_checking: String::from_str("Ricerca aggiornamenti…"),
            update_up_to_date: String::from_str("Aggiornato."),
            update_failed: String::from_str("Controllo aggiornamenti non riuscito."),
            update_unavailable: String::from_str("Impossibile controllare gli aggiornamenti — riprova più tardi."),
            status_synced_fmt: String::from_str("Sincronizzato — {} inni indicizzati."),
            status_sync_failed_fmt: String::from_str("Sincronizzazione non riuscita: {}"),
            update_staged_fmt: String::from_str("Aggiornamento {} pronto — riavvia per applicarlo."),
            slide_counter_fmt: String::from_str("{} — diapositiva {}/{}"),
            slide_zero_fmt: String::from_str("{} — 0 diapositive"),
            status_indexing: String::from_str("Indicizzazione…"),
            status_indexed_fmt: String::from_str("Indicizzati {} inni."),
            status_indexing_failed_fmt: String::from_str("Indicizzazione non riuscita: {}"),
        }
    }

    fn ro() -> (r: Strings)
        ensures
            r.fields() == strings_table(Language::Ro),
    {
        Strings {
            app_title: String::from_str("SDA Manager"),
            nav_library: String::from_str("Imnar"),
            nav_downloader: String::from_str("Descărcare video"),
            nav_settings: String::from_str("Setări"),
            search_placeholder: String::from_str("Caută după număr, titlu sau vers…"),
            prev_slide: String::from_str("‹ Înapoi"),
            next_slide: String::from_str("Înainte ›"),
            open_in_powerpoint: String::from_str("Deschide în PowerPoint"),
            reveal_in_folder: String::from_str("Arată în folder"),
            downloader_heading: String::from_str("Descărcare video"),
            downloader_subtitle: String::from_str("Lipește un link YouTube și alege unde să-l salvezi."),
            downloader_url_placeholder: String::from_str("Lipește un URL YouTube…"),
            choose: String::from_str("Alege…"),
            setting_up_downloader: String::from_str("Se pregătește descărcătorul…"),
            download_complete: String::from_str("✓ Descărcare finalizată"),
            download_failed_prefix: String::from_str("Descărcare eșuată: "),
            settings_heading: String::from_str("Setări"),
            version_prefix: String::from_str("Versiunea "),
            library_heading: String::from_str("Imnar"),
            force_sync_description: String::from_str("Sincronizarea forțată șterge imnarul local și memoria cache, apoi descarcă și reindexează totul."),
            force_sync_button: String::from_str("Sincronizează imnarul"),
            syncing_button: String::from_str("Se sincronizează…"),
            language_heading: String::from_str("Limbă"),
            user_libraries_heading: String::from_str("Folderele tale"),
            add_folder_button: String::from_str("Adaugă folder…"),
            user_libraries_description: String::from_str("Adaugă propriile foldere cu imnuri .pptx. Sunt căutate împreună cu imnarul integrat."),
            library_unavailable_suffix: String::from_str("  (indisponibil)"),
            nav_themes: String::from_str("Teme"),
            themes_heading: String::from_str("Teme"),
            theme_new: String::from_str("Temă nouă"),
            theme_save: String::from_str("Salvează"),
            theme_delete: String::from_str("Șterge"),
            theme_preview_sample: String::from_str("Plecaţi-vă lui Dumnezeu"),
            theme_font_label: String::from_str("Font"),
            theme_size_label: String::from_str("Dimensiune"),
            theme_weight_label: String::from_str("Grosime"),
            theme_align_label: String::from_str("Aliniere"),
            theme_text_color_label: String::from_str("Culoare text"),
            theme_bg_color_label: String::from_str("Fundal"),
            theme_set_active: String::from_str("Setează ca activ"),
            theme_name_label: String::from_str("Nume"),
            nav_control: String::from_str("Control"),
            control_heading: String::from_str("Control"),
            control_start: String::from_str("▶ Începe proiecția"),
            control_stop: String::from_str("■ Oprește"),
            control_blank: String::from_str("Ecran negru (B)"),
            control_prev: String::from_str("◀ Înapoi"),
            control_next: String::from_str("Înainte ▶"),
            control_next_label: String::from_str("URMĂTORUL"),
            control_live: String::from_str("ÎN DIRECT"),
            control_output: String::from_str("Ieșire"),
            control_theme: String::from_str("Temă"),
            library_project: String::from_str("Proiectează"),
            status_loading: String::from_str("Se încarcă imnarul…"),
            status_library_ready: String::from_str("Imnar pregătit."),
            status_re_cloning: String::from_str("Se reclonează și se reindexează…"),
            update_checking: String::from_str("Se caută actualizări…"),
            update_up_to_date: String::from_str("La zi."),
            update_failed: String::from_str("Verificarea actualizărilor a eșuat."),
            update_unavailable: String::from_str("Nu s-au putut verifica actualizările — încearcă mai târziu."),
            status_synced_fmt: String::from_str("Sincronizat — {} imnuri indexate."),
            status_sync_failed_fmt: String::from_str("Sincronizare eșuată: {}"),
            update_staged_fmt: String::from_str("Actualizarea {} este pregătită — repornește pentru a o aplica."),
            slide_counter_fmt: String::from_str("{} — diapozitivul {}/{}"),
            slide_zero_fmt: String::from_str("{} — 0 diapozitive"),
            status_indexing: String::from_str("Se indexează…"),
            status_indexed_fmt: String::from_str("{} imnuri indexate."),
            status_indexing_failed_fmt: String::from_str("Indexare eșuată: {}"),
        }
    }
}

proof fn nonblank_en(i: int)
    requires
        0 <= i < STRINGS_FIELD_COUNT,
    ensures
        !all_whitespace(strings_table(Language::En)[i]),
{
    let t = strings_table(Language::En);
    if i == 0 {
        reveal_strlit("SDA Manager");
        assert(!whitespace(t[0][0]));
    } else if i == 1 {
        reveal_strlit("Library");
        assert(!whitespace(t[1][0]));
    } else if i == 2 {
        reveal_strlit("Video Downloader");
        assert(!whitespace(t[2][0]));
    } else if i == 3 {
        reveal_strlit("Settings");
        assert(!whitespace(t[3][0]));
    } else if i == 4 {
        reveal_strlit("Search by number, title, or lyrics…");
        assert(!whitespace(t[4][0]));
    } else if i == 5 {
        reveal_strlit("‹ Prev");
        assert(!whitespace(t[5][2]));
    } else if i == 6 {
        reveal_strlit("Next ›");
        assert(!whitespace(t[6][0]));
    } else if i == 7 {
        reveal_strlit("Open in PowerPoint");
        assert(!whitespace(t[7][0]));
    } else if i == 8 {
        reveal_strlit("Reveal in folder");
        assert(!whitespace(t[8][0]));
    } else if i == 9 {
        reveal_strlit("Video Downloader");
        assert(!whitespace(t[9][0]));
    } else if i == 10 {
        reveal_strlit("Paste a YouTube link and choose where to save it.");
        assert(!whitespace(t[10][0]));
    } else if i == 11 {
        reveal_strlit("Paste a YouTube URL…");
        assert(!whitespace(t[11][0]));
    } else if i == 12 {
        reveal_strlit("Choose…");
        assert(!whitespace(t[12][0]));
    } else if i == 13 {
        reveal_strlit("Setting up downloader…");
        assert(!whitespace(t[13][0]));
    } else if i == 14 {
        reveal_strlit("✓ Download complete");
        assert(!whitespace(t[14][2]));
    } else if i == 15 {
        reveal_strlit("Download failed: ");
        assert(!whitespace(t[15][0]));
    } else if i == 16 {
        reveal_strlit("Settings");
        assert(!whitespace(t[16][0]));
    } else if i == 17 {
        reveal_strlit("Version ");
        assert(!whitespace(t[17][0]));
    } else if i == 18 {
        reveal_strlit("Library");
        assert(!whitespace(t[18][0]));
    } else if i == 19 {
        reveal_strlit("Force sync deletes the local hymn library and cache, then re-downloads and reindexes everything.");
        assert(!whitespace(t[19][0]));
    } else if i == 20 {
        reveal_strlit("Force sync library");
        assert(!whitespace(t[20][0]));
    } else if i == 21 {
        reveal_strlit("Syncing…");
        assert(!whitespace(t[21][0]));
    } else if i == 22 {
        reveal_strlit("Language");
        assert(!whitespace(t[22][0]));
    } else if i == 23 {
        reveal_strlit("Your library folders");
        assert(!whitespace(t[23][0]));
    } else if i == 24 {
        reveal_strlit("Add folder…");
        assert(!whitespace(t[24][0]));
    } else if i == 25 {
        reveal_strlit("Add your own folders of .pptx hymns. They're searched alongside the built-in library.");
        assert(!whitespace(t[25][0]));
    } else if i == 26 {
        reveal_strlit("  (unavailable)");
        assert(!whitespace(t[26][2]));
    } else if i == 27 {
        reveal_strlit("Themes");
        assert(!whitespace(t[27][0]));
    } else if i == 28 {
        reveal_strlit("Themes");
        assert(!whitespace(t[28][0]));
    } else if i == 29 {
        reveal_strlit("New theme");
        assert(!whitespace(t[29][0]));
    } else if i == 30 {
        reveal_strlit("Save");
        assert(!whitespace(t[30][0]));
    } else if i == 31 {
        reveal_strlit("Delete");
        assert(!whitespace(t[31][0]));
    } else if i == 32 {
        reveal_strlit("Plecaţi-vă lui Dumnezeu");
        assert(!whitespace(t[32][0]));
    } else if i == 33 {
        reveal_strlit("Font");
        assert(!whitespace(t[33][0]));
    } else if i == 34 {
        reveal_strlit("Size");
        assert(!whitespace(t[34][0]));
    } else if i == 35 {
        reveal_strlit("Weight");
        assert(!whitespace(t[35][0]));
    } else if i == 36 {
        reveal_strlit("Align");
        assert(!whitespace(t[36][0]));
    } else if i == 37 {
        reveal_strlit("Text color");
        assert(!whitespace(t[37][0]));
    } else if i == 38 {
        reveal_strlit("Background");
        assert(!whitespace(t[38][0]));
    } else if i == 39 {
        reveal_strlit("Set as active");
        assert(!whitespace(t[39][0]));
    } else if i == 40 {
        reveal_strlit("Name");
        assert(!whitespace(t[40][0]));
    } else if i == 41 {
        reveal_strlit("Control");
        assert(!whitespace(t[41][0]));
    } else if i == 42 {
        reveal_strlit("Control");
        assert(!whitespace(t[42][0]));
    } else if i == 43 {
        reveal_strlit("▶ Start projecting");
        assert(!whitespace(t[43][2]));
    } else if i == 44 {
        reveal_strlit("■ Stop");
        assert(!whitespace(t[44][2]));
    } else if i == 45 {
        reveal_strlit("Blank (B)");
        assert(!whitespace(t[45][0]));
    } else if i == 46 {
        reveal_strlit("◀ Prev");
        assert(!whitespace(t[46][2]));
    } else if i == 47 {
        reveal_strlit("Next ▶");
        assert(!whitespace(t[47][0]));
    } else if i == 48 {
        reveal_strlit("NEXT");
        assert(!whitespace(t[48][0]));
    } else if i == 49 {
        reveal_strlit("LIVE");
        assert(!whitespace(t[49][0]));
    } else if i == 50 {
        reveal_strlit("Output");
        assert(!whitespace(t[50][0]));
    } else if i == 51 {
        reveal_strlit("Theme");
        assert(!whitespace(t[51][0]));
    } else if i == 52 {
        reveal_strlit("Project");
        assert(!whitespace(t[52][0]));
    } else if i == 53 {
        reveal_strlit("Loading hymn library…");
        assert(!whitespace(t[53][0]));
    } else if i == 54 {
        reveal_strlit("Library ready.");
        assert(!whitespace(t[54][0]));
    } else if i == 55 {
        reveal_strlit("Re-cloning and reindexing…");
        assert(!whitespace(t[55][0]));
    } else if i == 56 {
        reveal_strlit("Checking for updates…");
        assert(!whitespace(t[56][0]));
    } else if i == 57 {
        reveal_strlit("Up to date.");
        assert(!whitespace(t[57][0]));
    } else if i == 58 {
        reveal_strlit("Update check failed.");
        assert(!whitespace(t[58][0]));
    } else if i == 59 {
        reveal_strlit("Couldn't check for updates — try later.");
        assert(!whitespace(t[59][0]));
    } else if i == 60 {
        reveal_strlit("Synced — indexed {} hymns.");
        assert(!whitespace(t[60][0]));
    } else if i == 61 {
        reveal_strlit("Sync failed: {}");
        assert(!whitespace(t[61][0]));
    } else if i == 62 {
        reveal_strlit("Update {} staged — restart to apply.");
        assert(!whitespace(t[62][0]));
    } else if i == 63 {
        reveal_strlit("{} — slide {}/{}");
        assert(!whitespace(t[63][0]));
    } else if i == 64 {
        reveal_strlit("{} — 0 slides");
        assert(!whitespace(t[64][0]));
    } else if i == 65 {
        reveal_strlit("Indexing…");
        assert(!whitespace(t[65][0]));
    } else if i == 66 {
        reveal_strlit("Indexed {} hymns.");
        assert(!whitespace(t[66][0]));
    } else if i == 67 {
        reveal_strlit("Indexing failed: {}");
        assert(!whitespace(t[67][0]));
    }
}

proof fn nonblank_it(i: int)
    requires
        0 <= i < STRINGS_FIELD_COUNT,
    ensures
        !all_whitespace(strings_table(Language::It)[i]),
{
    let t = strings_table(Language::It);
    if i == 0 {
        reveal_strlit("SDA Manager");
        assert(!whitespace(t[0][0]));
    } else if i == 1 {
        reveal_strlit("Innario");
        assert(!whitespace(t[1][0]));
    } else if i == 2 {
        reveal_strlit("Scarica video");
        assert(!whitespace(t[2][0]));
    } else if i == 3 {
        reveal_strlit("Impostazioni");
        assert(!whitespace(t[3][0]));
    } else if i == 4 {
        reveal_strlit("Cerca per numero, titolo o testo…");
        assert(!whitespace(t[4][0]));
    } else if i == 5 {
        reveal_strlit("‹ Prec");
        assert(!whitespace(t[5][2]));
    } else if i == 6 {
        reveal_strlit("Succ ›");
        assert(!whitespace(t[6][0]));
    } else if i == 7 {
        reveal_strlit("Apri in PowerPoint");
        assert(!whitespace(t[7][0]));
    } else if i == 8 {
        reveal_strlit("Mostra nella cartella");
        assert(!whitespace(t[8][0]));
    } else if i == 9 {
        reveal_strlit("Scarica video");
        assert(!whitespace(t[9][0]));
    } else if i == 10 {
        reveal_strlit("Incolla un link di YouTube e scegli dove salvarlo.");
        assert(!whitespace(t[10][0]));
    } else if i == 11 {
        reveal_strlit("Incolla un URL di YouTube…");
        assert(!whitespace(t[11][0]));
    } else if i == 12 {
        reveal_strlit("Scegli…");
        assert(!whitespace(t[12][0]));
    } else if i == 13 {
        reveal_strlit("Preparazione del downloader…");
        assert(!whitespace(t[13][0]));
    } else if i == 14 {
        reveal_strlit("✓ Download completato");
        assert(!whitespace(t[14][2]));
    } else if i == 15 {
        reveal_strlit("Download non riuscito: ");
        assert(!whitespace(t[15][0]));
    } else if i == 16 {
        reveal_strlit("Impostazioni");
        assert(!whitespace(t[16][0]));
    } else if i == 17 {
        reveal_strlit("Versione ");
        assert(!whitespace(t[17][0]));
    } else if i == 18 {
        reveal_strlit("Innario");
        assert(!whitespace(t[18][0]));
    } else if i == 19 {
        reveal_strlit("La sincronizzazione forzata elimina l'innario locale e la cache, poi riscarica e reindicizza tutto.");
        assert(!whitespace(t[19][0]));
    } else if i == 20 {
        reveal_strlit("Sincronizza innario");
        assert(!whitespace(t[20][0]));
    } else if i == 21 {
        reveal_strlit("Sincronizzazione…");
        assert(!whitespace(t[21][0]));
    } else if i == 22 {
        reveal_strlit("Lingua");
        assert(!whitespace(t[22][0]));
    } else if i == 23 {
        reveal_strlit("Le tue cartelle");
        assert(!whitespace(t[23][0]));
    } else if i == 24 {
        reveal_strlit("Aggiungi cartella…");
        assert(!whitespace(t[24][0]));
    } else if i == 25 {
        reveal_strlit("Aggiungi le tue cartelle di inni .pptx. Vengono cercate insieme all'innario integrato.");
        assert(!whitespace(t[25][0]));
    } else if i == 26 {
        reveal_strlit("  (non disponibile)");
        assert(!whitespace(t[26][2]));
    } else if i == 27 {
        reveal_strlit("Temi");
        assert(!whitespace(t[27][0]));
    } else if i == 28 {
        reveal_strlit("Temi");
        assert(!whitespace(t[28][0]));
    } else if i == 29 {
        reveal_strlit("Nuovo tema");
        assert(!whitespace(t[29][0]));
    } else if i == 30 {
        reveal_strlit("Salva");
        assert(!whitespace(t[30][0]));
    } else if i == 31 {
        reveal_strlit("Elimina");
        assert(!whitespace(t[31][0]));
    } else if i == 32 {
        reveal_strlit("Plecaţi-vă lui Dumnezeu");
        assert(!whitespace(t[32][0]));
    } else if i == 33 {
        reveal_strlit("Carattere");
        assert(!whitespace(t[33][0]));
    } else if i == 34 {
        reveal_strlit("Dimensione");
        assert(!whitespace(t[34][0]));
    } else if i == 35 {
        reveal_strlit("Spessore");
        assert(!whitespace(t[35][0]));
    } else if i == 36 {
        reveal_strlit("Allinea");
        assert(!whitespace(t[36][0]));
    } else if i == 37 {
        reveal_strlit("Colore testo");
        assert(!whitespace(t[37][0]));
    } else if i == 38 {
        reveal_strlit("Sfondo");
        assert(!whitespace(t[38][0]));
    } else if i == 39 {
        reveal_strlit("Imposta come attivo");
        assert(!whitespace(t[39][0]));
    } else if i == 40 {
        reveal_strlit("Nome");
        assert(!whitespace(t[40][0]));
    } else if i == 41 {
        reveal_strlit("Controllo");
        assert(!whitespace(t[41][0]));
    } else if i == 42 {
        reveal_strlit("Controllo");
        assert(!whitespace(t[42][0]));
    } else if i == 43 {
        reveal_strlit("▶ Avvia proiezione");
        assert(!whitespace(t[43][2]));
    } else if i == 44 {
        reveal_strlit("■ Ferma");
        assert(!whitespace(t[44][2]));
    } else if i == 45 {
        reveal_strlit("Schermo nero (B)");
        assert(!whitespace(t[45][0]));
    } else if i == 46 {
        reveal_strlit("◀ Prec");
        assert(!whitespace(t[46][2]));
    } else if i == 47 {
        reveal_strlit("Succ ▶");
        assert(!whitespace(t[47][0]));
    } else if i == 48 {
        reveal_strlit("PROSSIMO");
        assert(!whitespace(t[48][0]));
    } else if i == 49 {
        reveal_strlit("IN ONDA");
        assert(!whitespace(t[49][0]));
    } else if i == 50 {
        reveal_strlit("Uscita");
        assert(!whitespace(t[50][0]));
    } else if i == 51 {
        reveal_strlit("Tema");
        assert(!whitespace(t[51][0]));
    } else if i == 52 {
        reveal_strlit("Proietta");
        assert(!whitespace(t[52][0]));
    } else if i == 53 {
        reveal_strlit("Caricamento dell'innario…");
        assert(!whitespace(t[53][0]));
    } else if i == 54 {
        reveal_strlit("Innario pronto.");
        assert(!whitespace(t[54][0]));
    } else if i == 55 {
        reveal_strlit("Riscaricamento e reindicizzazione…");
        assert(!whitespace(t[55][0]));
    } else if i == 56 {
        reveal_strlit("Ricerca aggiornamenti…");
        assert(!whitespace(t[56][0]));
    } else if i == 57 {
        reveal_strlit("Aggiornato.");
        assert(!whitespace(t[57][0]));
    } else if i == 58 {
        reveal_strlit("Controllo aggiornamenti non riuscito.");
        assert(!whitespace(t[58][0]));
    } else if i == 59 {
        reveal_strlit("Impossibile controllare gli aggiornamenti — riprova più tardi.");
        assert(!whitespace(t[59][0]));
    } else if i == 60 {
        reveal_strlit("Sincronizzato — {} inni indicizzati.");
        assert(!whitespace(t[60][0]));
    } else if i == 61 {
        reveal_strlit("Sincronizzazione non riuscita: {}");
        assert(!whitespace(t[61][0]));
    } else if i == 62 {
        reveal_strlit("Aggiornamento {} pronto — riavvia per applicarlo.");
        assert(!whitespace(t[62][0]));
    } else if i == 63 {
        reveal_strlit("{} — diapositiva {}/{}");
        assert(!whitespace(t[63][0]));
    } else if i == 64 {
        reveal_strlit("{} — 0 diapositive");
        assert(!whitespace(t[64][0]));
    } else if i == 65 {
        reveal_strlit("Indicizzazione…");
        assert(!whitespace(t[65][0]));
    } else if i == 66 {
        reveal_strlit("Indicizzati {} inni.");
        assert(!whitespace(t[66][0]));
    } else if i == 67 {
        reveal_strlit("Indicizzazione non riuscita: {}");
        assert(!whitespace(t[67][0]));
    }
}

proof fn nonblank_ro(i: int)
    requires
        0 <= i < STRINGS_FIELD_COUNT,
    ensures
        !all_whitespace(strings_table(Language::Ro)[i]),
{
    let t = strings_table(Language::Ro);
    if i == 0 {
        reveal_strlit("SDA Manager");
        assert(!whitespace(t[0][0]));
    } else if i == 1 {
        reveal_strlit("Imnar");
        assert(!whitespace(t[1][0]));
    } else if i == 2 {
        reveal_strlit("Descărcare video");
        assert(!whitespace(t[2][0]));
    } else if i == 3 {
        reveal_strlit("Setări");
        assert(!whitespace(t[3][0]));
    } else if i == 4 {
        reveal_strlit("Caută după număr, titlu sau vers…");
        assert(!whitespace(t[4][0]));
    } else if i == 5 {
        reveal_strlit("‹ Înapoi");
        assert(!whitespace(t[5][3]));
    } else if i == 6 {
        reveal_strlit("Înainte ›");
        assert(!whitespace(t[6][1]));
    } else if i == 7 {
        reveal_strlit("Deschide în PowerPoint");
        assert(!whitespace(t[7][0]));
    } else if i == 8 {
        reveal_strlit("Arată în folder");
        assert(!whitespace(t[8][0]));
    } else if i == 9 {
        reveal_strlit("Descărcare video");
        assert(!whitespace(t[9][0]));
    } else if i == 10 {
        reveal_strlit("Lipește un link YouTube și alege unde să-l salvezi.");
        assert(!whitespace(t[10][0]));
    } else if i == 11 {
        reveal_strlit("Lipește un URL YouTube…");
        assert(!whitespace(t[11][0]));
    } else if i == 12 {
        reveal_strlit("Alege…");
        assert(!whitespace(t[12][0]));
    } else if i == 13 {
        reveal_strlit("Se pregătește descărcătorul…");
        assert(!whitespace(t[13][0]));
    } else if i == 14 {
        reveal_strlit("✓ Descărcare finalizată");
        assert(!whitespace(t[14][2]));
    } else if i == 15 {
        reveal_strlit("Descărcare eșuată: ");
        assert(!whitespace(t[15][0]));
    } else if i == 16 {
        reveal_strlit("Setări");
        assert(!whitespace(t[16][0]));
    } else if i == 17 {
        reveal_strlit("Versiunea ");
        assert(!whitespace(t[17][0]));
    } else if i == 18 {
        reveal_strlit("Imnar");
        assert(!whitespace(t[18][0]));
    } else if i == 19 {
        reveal_strlit("Sincronizarea forțată șterge imnarul local și memoria cache, apoi descarcă și reindexează totul.");
        assert(!whitespace(t[19][0]));
    } else if i == 20 {
        reveal_strlit("Sincronizează imnarul");
        assert(!whitespace(t[20][0]));
    } else if i == 21 {
        reveal_strlit("Se sincronizează…");
        assert(!whitespace(t[21][0]));
    } else if i == 22 {
        reveal_strlit("Limbă");
        assert(!whitespace(t[22][0]));
    } else if i == 23 {
        reveal_strlit("Folderele tale");
        assert(!whitespace(t[23][0]));
    } else if i == 24 {
        reveal_strlit("Adaugă folder…");
        assert(!whitespace(t[24][0]));
    } else if i == 25 {
        reveal_strlit("Adaugă propriile foldere cu imnuri .pptx. Sunt căutate împreună cu imnarul integrat.");
        assert(!whitespace(t[25][0]));
    } else if i == 26 {
        reveal_strlit("  (indisponibil)");
        assert(!whitespace(t[26][2]));
    } else if i == 27 {
        reveal_strlit("Teme");
        assert(!whitespace(t[27][0]));
    } else if i == 28 {
        reveal_strlit("Teme");
        assert(!whitespace(t[28][0]));
    } else if i == 29 {
        reveal_strlit("Temă nouă");
        assert(!whitespace(t[29][0]));
    } else if i == 30 {
        reveal_strlit("Salvează");
        assert(!whitespace(t[30][0]));
    } else if i == 31 {
        reveal_strlit("Șterge");
        assert(!whitespace(t[31][1]));
    } else if i == 32 {
        reveal_strlit("Plecaţi-vă lui Dumnezeu");
        assert(!whitespace(t[32][0]));
    } else if i == 33 {
        reveal_strlit("Font");
        assert(!whitespace(t[33][0]));
    } else if i == 34 {
        reveal_strlit("Dimensiune");
        assert(!whitespace(t[34][0]));
    } else if i == 35 {
        reveal_strlit("Grosime");
        assert(!whitespace(t[35][0]));
    } else if i == 36 {
        reveal_strlit("Aliniere");
        assert(!whitespace(t[36][0]));
    } else if i == 37 {
        reveal_strlit("Culoare text");
        assert(!whitespace(t[37][0]));
    } else if i == 38 {
        reveal_strlit("Fundal");
        assert(!whitespace(t[38][0]));
    } else if i == 39 {
        reveal_strlit("Setează ca activ");
        assert(!whitespace(t[39][0]));
    } else if i == 40 {
        reveal_strlit("Nume");
        assert(!whitespace(t[40][0]));
    } else if i == 41 {
        reveal_strlit("Control");
        assert(!whitespace(t[41][0]));
    } else if i == 42 {
        reveal_strlit("Control");
        assert(!whitespace(t[42][0]));
    } else if i == 43 {
        reveal_strlit("▶ Începe proiecția");
        assert(!whitespace(t[43][3]));
    } else if i == 44 {
        reveal_strlit("■ Oprește");
        assert(!whitespace(t[44][2]));
    } else if i == 45 {
        reveal_strlit("Ecran negru (B)");
        assert(!whitespace(t[45][0]));
    } else if i == 46 {
        reveal_strlit("◀ Înapoi");
        assert(!whitespace(t[46][3]));
    } else if i == 47 {
        reveal_strlit("Înainte ▶");
        assert(!whitespace(t[47][1]));
    } else if i == 48 {
        reveal_strlit("URMĂTORUL");
        assert(!whitespace(t[48][0]));
    } else if i == 49 {
        reveal_strlit("ÎN DIRECT");
        assert(!whitespace(t[49][1]));
    } else if i == 50 {
        reveal_strlit("Ieșire");
        assert(!whitespace(t[50][0]));
    } else if i == 51 {
        reveal_strlit("Temă");
        assert(!whitespace(t[51][0]));
    } else if i == 52 {
        reveal_strlit("Proiectează");
        assert(!whitespace(t[52][0]));
    } else if i == 53 {
        reveal_strlit("Se încarcă imnarul…");
        assert(!whitespace(t[53][0]));
    } else if i == 54 {
        reveal_strlit("Imnar pregătit.");
        assert(!whitespace(t[54][0]));
    } else if i == 55 {
        reveal_strlit("Se reclonează și se reindexează…");
        assert(!whitespace(t[55][0]));
    } else if i == 56 {
        reveal_strlit("Se caută actualizări…");
        assert(!whitespace(t[56][0]));
    } else if i == 57 {
        reveal_strlit("La zi.");
        assert(!whitespace(t[57][0]));
    } else if i == 58 {
        reveal_strlit("Verificarea actualizărilor a eșuat.");
        assert(!whitespace(t[58][0]));
    } else if i == 59 {
        reveal_strlit("Nu s-au putut verifica actualizările — încearcă mai târziu.");
        assert(!whitespace(t[59][0]));
    } else if i == 60 {
        reveal_strlit("Sincronizat — {} imnuri indexate.");
        assert(!whitespace(t[60][0]));
    } else if i == 61 {
        reveal_strlit("Sincronizare eșuată: {}");
        assert(!whitespace(t[61][0]));
    } else if i == 62 {
        reveal_strlit("Actualizarea {} este pregătită — repornește pentru a o aplica.");
        assert(!whitespace(t[62][0]));
    } else if i == 63 {
        reveal_strlit("{} — diapozitivul {}/{}");
        assert(!whitespace(t[63][0]));
    } else if i == 64 {
        reveal_strlit("{} — 0 diapozitive");
        assert(!whitespace(t[64][0]));
    } else if i == 65 {
        reveal_strlit("Se indexează…");
        assert(!whitespace(t[65][0]));
    } else if i == 66 {
        reveal_strlit("{} imnuri indexate.");
        assert(!whitespace(t[66][0]));
    } else if i == 67 {
        reveal_strlit("Indexare eșuată: {}");
        assert(!whitespace(t[67][0]));
    }
}

proof fn placeholders_en_60()
    ensures
        count_matches(strings_table(Language::En)[SYNCED_FMT_FIELD as int], seq!['{', '}']) == 1,
{
    reveal_strlit("Synced — indexed {} hymns.");
    let s = "Synced — indexed {} hymns."@;
    lemma_count_braces_run(s, 0, 17);
    lemma_count_braces_pair(s, 17);
    lemma_count_braces_run(s, 19, 26);
    lemma_count_braces_end(s);
    assert(s.skip(0) == s);
}

proof fn placeholders_en_61()
    ensures
        count_matches(strings_table(Language::En)[SYNC_FAILED_FMT_FIELD as int], seq!['{', '}']) == 1,
{
    reveal_strlit("Sync failed: {}");
    let s = "Sync failed: {}"@;
    lemma_count_braces_run(s, 0, 13);
    lemma_count_braces_pair(s, 13);
    lemma_count_braces_end(s);
    assert(s.skip(0) == s);
}

proof fn placeholders_en_62()
    ensures
        count_matches(strings_table(Language::En)[STAGED_FMT_FIELD as int], seq!['{', '}']) == 1,
{
    reveal_strlit("Update {} staged — restart to apply.");
    let s = "Update {} staged — restart to apply."@;
    lemma_count_braces_run(s, 0, 7);
    lemma_count_braces_pair(s, 7);
    lemma_count_braces_run(s, 9, 36);
    lemma_count_braces_end(s);
    assert(s.skip(0) == s);
}

proof fn placeholders_en_63()
    ensures
        count_matches(strings_table(Language::En)[SLIDE_COUNTER_FMT_FIELD as int], seq!['{', '}']) == 3,
{
    reveal_strlit("{} — slide {}/{}");
    let s = "{} — slide {}/{}"@;
    lemma_count_braces_pair(s, 0);
    lemma_count_braces_run(s, 2, 11);
    lemma_count_braces_pair(s, 11);
    lemma_count_braces_run(s, 13, 14);
    lemma_count_braces_pair(s, 14);
    lemma_count_braces_end(s);
    assert(s.skip(0) == s);
}

proof fn placeholders_en_64()
    ensures
        count_matches(strings_table(Language::En)[SLIDE_ZERO_FMT_FIELD as int], seq!['{', '}']) == 1,
{
    reveal_strlit("{} — 0 slides");
    let s = "{} — 0 slides"@;
    lemma_count_braces_pair(s, 0);
    lemma_count_braces_run(s, 2, 13);
    lemma_count_braces_end(s);
    assert(s.skip(0) == s);
}

proof fn placeholders_en_66()
    ensures
        count_matches(strings_table(Language::En)[INDEXED_FMT_FIELD as int], seq!['{', '}']) == 1,
{
    reveal_strlit("Indexed {} hymns.");
    let s = "Indexed {} hymns."@;
    lemma_count_braces_run(s, 0, 8);
    lemma_count_braces_pair(s, 8);
    lemma_count_braces_run(s, 10, 17);
    lemma_count_braces_end(s);
    assert(s.skip(0) == s);
}

proof fn placeholders_en_67()
    ensures
        count_matches(strings_table(Language::En)[INDEXING_FAILED_FMT_FIELD as int], seq!['{', '}']) == 1,
{
    reveal_strlit("Indexing failed: {}");
    let s = "Indexing failed: {}"@;
    lemma_count_braces_run(s, 0, 17);
    lemma_count_braces_pair(s, 17);
    lemma_count_braces_end(s);
    assert(s.skip(0) == s);
}

proof fn placeholders_it_60()
    ensures
        count_matches(strings_table(Language::It)[SYNCED_FMT_FIELD as int], seq!['{', '}']) == 1,
{
    reveal_strlit("Sincronizzato — {} inni indicizzati.");
    let s = "Sincronizzato — {} inni indicizzati."@;
    lemma_count_braces_run(s, 0, 16);
    lemma_count_braces_pair(s, 16);
    lemma_count_braces_run(s, 18, 36);
    lemma_count_braces_end(s);
    assert(s.skip(0) == s);
}

proof fn placeholders_it_61()
    ensures
        count_matches(strings_table(Language::It)[SYNC_FAILED_FMT_FIELD as int], seq!['{', '}']) == 1,
{
    reveal_strlit("Sincronizzazione non riuscita: {}");
    let s = "Sincronizzazione non riuscita: {}"@;
    lemma_count_braces_run(s, 0, 31);
    lemma_count_braces_pair(s, 31);
    lemma_count_braces_end(s);
    assert(s.skip(0) == s);
}

proof fn placeholders_it_62()
    ensures
        count_matches(strings_table(Language::It)[STAGED_FMT_FIELD as int], seq!['{', '}']) == 1,
{
    reveal_strlit("Aggiornamento {} pronto — riavvia per applicarlo.");
    let s = "Aggiornamento {} pronto — riavvia per applicarlo."@;
    lemma_count_braces_run(s, 0, 14);
    lemma_count_braces_pair(s, 14);
    lemma_count_braces_run(s, 16, 49);
    lemma_count_braces_end(s);
    assert(s.skip(0) == s);
}

proof fn placeholders_it_63()
    ensures
        count_matches(strings_table(Language::It)[SLIDE_COUNTER_FMT_FIELD as int], seq!['{', '}']) == 3,
{
    reveal_strlit("{} — diapositiva {}/{}");
    let s = "{} — diapositiva {}/{}"@;
    lemma_count_braces_pair(s, 0);
    lemma_count_braces_run(s, 2, 17);
    lemma_count_braces_pair(s, 17);
    lemma_count_braces_run(s, 19, 20);
    lemma_count_braces_pair(s, 20);
    lemma_count_braces_end(s);
    assert(s.skip(0) == s);
}

proof fn placeholders_it_64()
    ensures
        count_matches(strings_table(Language::It)[SLIDE_ZERO_FMT_FIELD as int], seq!['{', '}']) == 1,
{
    reveal_strlit("{} — 0 diapositive");
    let s = "{} — 0 diapositive"@;
    lemma_count_braces_pair(s, 0);
    lemma_count_braces_run(s, 2, 18);
    lemma_count_braces_end(s);
    assert(s.skip(0) == s);
}

proof fn placeholders_it_66()
    ensures
        count_matches(strings_table(Language::It)[INDEXED_FMT_FIELD as int], seq!['{', '}']) == 1,
{
    reveal_strlit("Indicizzati {} inni.");
    let s = "Indicizzati {} inni."@;
    lemma_count_braces_run(s, 0, 12);
    lemma_count_braces_pair(s, 12);
    lemma_count_braces_run(s, 14, 20);
    lemma_count_braces_end(s);
    assert(s.skip(0) == s);
}

proof fn placeholders_it_67()
    ensures
        count_matches(strings_table(Language::It)[INDEXING_FAILED_FMT_FIELD as int], seq!['{', '}']) == 1,
{
    reveal_strlit("Indicizzazione non riuscita: {}");
    let s = "Indicizzazione non riuscita: {}"@;
    lemma_count_braces_run(s, 0, 29);
    lemma_count_braces_pair(s, 29);
    lemma_count_braces_end(s);
    assert(s.skip(0) == s);
}

proof fn placeholders_ro_60()
    ensures
        count_matches(strings_table(Language::Ro)[SYNCED_FMT_FIELD as int], seq!['{', '}']) == 1,
{
    reveal_strlit("Sincronizat — {} imnuri indexate.");
    let s = "Sincronizat — {} imnuri indexate."@;
    lemma_count_braces_run(s, 0, 14);
    lemma_count_braces_pair(s, 14);
    lemma_count_braces_run(s, 16, 33);
    lemma_count_braces_end(s);
    assert(s.skip(0) == s);
}

proof fn placeholders_ro_61()
    ensures
        count_matches(strings_table(Language::Ro)[SYNC_FAILED_FMT_FIELD as int], seq!['{', '}']) == 1,
{
    reveal_strlit("Sincronizare eșuată: {}");
    let s = "Sincronizare eșuată: {}"@;
    lemma_count_braces_run(s, 0, 21);
    lemma_count_braces_pair(s, 21);
    lemma_count_braces_end(s);
    assert(s.skip(0) == s);
}

proof fn placeholders_ro_62()
    ensures
        count_matches(strings_table(Language::Ro)[STAGED_FMT_FIELD as int], seq!['{', '}']) == 1,
{
    reveal_strlit("Actualizarea {} este pregătită — repornește pentru a o aplica.");
    let s = "Actualizarea {} este pregătită — repornește pentru a o aplica."@;
    lemma_count_braces_run(s, 0, 13);
    lemma_count_braces_pair(s, 13);
    lemma_count_braces_run(s, 15, 62);
    lemma_count_braces_end(s);
    assert(s.skip(0) == s);
}

proof fn placeholders_ro_63()
    ensures
        count_matches(strings_table(Language::Ro)[SLIDE_COUNTER_FMT_FIELD as int], seq!['{', '}']) == 3,
{
    reveal_strlit("{} — diapozitivul {}/{}");
    let s = "{} — diapozitivul {}/{}"@;
    lemma_count_braces_pair(s, 0);
    lemma_count_braces_run(s, 2, 18);
    lemma_count_braces_pair(s, 18);
    lemma_count_braces_run(s, 20, 21);
    lemma_count_braces_pair(s, 21);
    lemma_count_braces_end(s);
    assert(s.skip(0) == s);
}

proof fn placeholders_ro_64()
    ensures
        count_matches(strings_table(Language::Ro)[SLIDE_ZERO_FMT_FIELD as int], seq!['{', '}']) == 1,
{
    reveal_strlit("{} — 0 diapozitive");
    let s = "{} — 0 diapozitive"@;
    lemma_count_braces_pair(s, 0);
    lemma_count_braces_run(s, 2, 18);
    lemma_count_braces_end(s);
    assert(s.skip(0) == s);
}

proof fn placeholders_ro_66()
    ensures
        count_matches(strings_table(Language::Ro)[INDEXED_FMT_FIELD as int], seq!['{', '}']) == 1,
{
    reveal_strlit("{} imnuri indexate.");
    let s = "{} imnuri indexate."@;
    lemma_count_braces_pair(s, 0);
    lemma_count_braces_run(s, 2, 19);
    lemma_count_braces_end(s);
    assert(s.skip(0) == s);
}

proof fn placeholders_ro_67()
    ensures
        count_matches(strings_table(Language::Ro)[INDEXING_FAILED_FMT_FIELD as int], seq!['{', '}']) == 1,
{
    reveal_strlit("Indexare eșuată: {}");
    let s = "Indexare eșuată: {}"@;
    lemma_count_braces_run(s, 0, 17);
    lemma_count_braces_pair(s, 17);
    lemma_count_braces_end(s);
    assert(s.skip(0) == s);
}

/// Format placeholders survive translation: in every language each of the
/// seven format strings (synced, sync failed, staged update, slide counter,
/// no slides, indexed, indexing failed) has as many `{}` as in English:
/// three in the slide counter, one in each of the others.
pub proof fn format_placeholders_survive(lang: Language)
    ensures
        count_matches(strings_table(lang)[SYNCED_FMT_FIELD as int], seq!['{', '}'])
            == count_matches(strings_table(Language::En)[SYNCED_FMT_FIELD as int], seq!['{', '}']),
        count_matches(strings_table(lang)[SYNC_FAILED_FMT_FIELD as int], seq!['{', '}'])
            == count_matches(strings_table(Language::En)[SYNC_FAILED_FMT_FIELD as int], seq!['{', '}']),
        count_matches(strings_table(lang)[STAGED_FMT_FIELD as int], seq!['{', '}'])
            == count_matches(strings_table(Language::En)[STAGED_FMT_FIELD as int], seq!['{', '}']),
        count_matches(strings_table(lang)[SLIDE_COUNTER_FMT_FIELD as int], seq!['{', '}'])
            == count_matches(strings_table(Language::En)[SLIDE_COUNTER_FMT_FIELD as int], seq!['{', '}']),
        count_matches(strings_table(lang)[SLIDE_ZERO_FMT_FIELD as int], seq!['{', '}'])
            == count_matches(strings_table(Language::En)[SLIDE_ZERO_FMT_FIELD as int], seq!['{', '}']),
        count_matches(strings_table(lang)[INDEXED_FMT_FIELD as int], seq!['{', '}'])
            == count_matches(strings_table(Language::En)[INDEXED_FMT_FIELD as int], seq!['{', '}']),
        count_matches(strings_table(lang)[INDEXING_FAILED_FMT_FIELD as int], seq!['{', '}'])
            == count_matches(strings_table(Language::En)[INDEXING_FAILED_FMT_FIELD as int], seq!['{', '}']),
        count_matches(strings_table(lang)[SYNCED_FMT_FIELD as int], seq!['{', '}']) == 1,
        count_matches(strings_table(lang)[SYNC_FAILED_FMT_FIELD as int], seq!['{', '}']) == 1,
        count_matches(strings_table(lang)[STAGED_FMT_FIELD as int], seq!['{', '}']) == 1,
        count_matches(strings_table(lang)[SLIDE_COUNTER_FMT_FIELD as int], seq!['{', '}']) == 3,
        count_matches(strings_table(lang)[SLIDE_ZERO_FMT_FIELD as int], seq!['{', '}']) == 1,
        count_matches(strings_table(lang)[INDEXED_FMT_FIELD as int], seq!['{', '}']) == 1,
        count_matches(strings_table(lang)[INDEXING_FAILED_FMT_FIELD as int], seq!['{', '}']) == 1,
{
    match lang {
        Language::En => {
            placeholders_en_60();
            placeholders_en_61();
            placeholders_en_62();
            placeholders_en_63();
            placeholders_en_64();
            placeholders_en_66();
            placeholders_en_67();
        },
        Language::It => {
            placeholders_it_60();
            placeholders_it_61();
            placeholders_it_62();
            placeholders_it_63();
            placeholders_it_64();
            placeholders_it_66();
            placeholders_it_67();
        },
        Language::Ro => {
            placeholders_ro_60();
            placeholders_ro_61();
            placeholders_ro_62();
            placeholders_ro_63();
            placeholders_ro_64();
            placeholders_ro_66();
            placeholders_ro_67();
        },
    }
    placeholders_en_60();
    placeholders_en_61();
    placeholders_en_62();
    placeholders_en_63();
    placeholders_en_64();
    placeholders_en_66();
    placeholders_en_67();
}

/// The same law read off the `Strings` values that `Strings::for_language`
/// gives: each format field of a translation holds as many `{}` as the
/// English one.
pub proof fn translated_formats_keep_placeholders(lang: Language, s: Strings, en: Strings)
    requires
        s.fields() == strings_table(lang),
        en.fields() == strings_table(Language::En),
    ensures
        count_matches(s.status_synced_fmt@, seq!['{', '}']) == count_matches(en.status_synced_fmt@, seq!['{', '}']),
        count_matches(s.status_sync_failed_fmt@, seq!['{', '}']) == count_matches(en.status_sync_failed_fmt@, seq!['{', '}']),
        count_matches(s.update_staged_fmt@, seq!['{', '}']) == count_matches(en.update_staged_fmt@, seq!['{', '}']),
        count_matches(s.slide_counter_fmt@, seq!['{', '}']) == count_matches(en.slide_counter_fmt@, seq!['{', '}']),
        count_matches(s.slide_zero_fmt@, seq!['{', '}']) == count_matches(en.slide_zero_fmt@, seq!['{', '}']),
        count_matches(s.status_indexed_fmt@, seq!['{', '}']) == count_matches(en.status_indexed_fmt@, seq!['{', '}']),
        count_matches(s.status_indexing_failed_fmt@, seq!['{', '}']) == count_matches(en.status_indexing_failed_fmt@, seq!['{', '}']),
{
    format_placeholders_survive(lang);
    assert(s.fields()[SYNCED_FMT_FIELD as int] == s.status_synced_fmt@);
    assert(en.fields()[SYNCED_FMT_FIELD as int] == en.status_synced_fmt@);
    assert(s.fields()[SYNC_FAILED_FMT_FIELD as int] == s.status_sync_failed_fmt@);
    assert(en.fields()[SYNC_FAILED_FMT_FIELD as int] == en.status_sync_failed_fmt@);
    assert(s.fields()[STAGED_FMT_FIELD as int] == s.update_staged_fmt@);
    assert(en.fields()[STAGED_FMT_FIELD as int] == en.update_staged_fmt@);
    assert(s.fields()[SLIDE_COUNTER_FMT_FIELD as int] == s.slide_counter_fmt@);
    assert(en.fields()[SLIDE_COUNTER_FMT_FIELD as int] == en.slide_counter_fmt@);
    assert(s.fields()[SLIDE_ZERO_FMT_FIELD as int] == s.slide_zero_fmt@);
    assert(en.fields()[SLIDE_ZERO_FMT_FIELD as int] == en.slide_zero_fmt@);
    assert(s.fields()[INDEXED_FMT_FIELD as int] == s.status_indexed_fmt@);
    assert(en.fields()[INDEXED_FMT_FIELD as int] == en.status_indexed_fmt@);
    assert(s.fields()[INDEXING_FAILED_FMT_FIELD as int] == s.status_indexing_failed_fmt@);
    assert(en.fields()[INDEXING_FAILED_FMT_FIELD as int] == en.status_indexing_failed_fmt@);
}

} // verus!
