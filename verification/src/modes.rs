//! The two ways to run: over the images of a folder, and over the archives in it.

use crate::api::ApiEndpoints;
use crate::paths::{join, path_join};
use crate::processor::{path_is_included, is_included, TranslationOptions};
use crate::scanner::{extension_of, file_extension};
use crate::text::{chars_of, decimal_text, lowered, push_decimal, same_text, texts, to_ascii_lower};
use vstd::prelude::*;
use vstd::string::StringExecFns;

verus! {

/// How a folder is run over.
#[derive(Clone, Copy, Debug, PartialEq, Eq, Structural)]
pub enum Mode {
    /// Over the images in it.
    Cli,
    /// Over the archives in it.
    Archive,
}

/// The mode that a request names: `archive` for archives, anything else, or
/// nothing, for images.
pub fn mode_of(mode: Option<&str>) -> (chosen: Mode)
    ensures
        chosen == if mode matches Some(m) && m@ == "archive"@ {
            Mode::Archive
        } else {
            Mode::Cli
        },
{
    match mode {
        Some(m) => if same_text(m, "archive") {
            Mode::Archive
        } else {
            Mode::Cli
        },
        None => Mode::Cli,
    }
}

/// The given text, or `fallback` where there is none.
pub fn text_or(value: Option<String>, fallback: &str) -> (text: String)
    ensures
        text@ == match value {
            Some(v) => v@,
            None => fallback@,
        },
{
    match value {
        Some(v) => v,
        None => fallback.to_owned(),
    }
}

/// The options of a request, with the usual value for whatever it leaves out:
/// English, the font `wildwords`, automatic alignment, strokes drawn, text
/// translated and not only removed, and a font of at least 12.
pub fn options_with_defaults(
    model: String,
    api_key: String,
    target_lang: Option<String>,
    font: Option<String>,
    text_align: Option<String>,
    stroke_disabled: Option<bool>,
    inpaint_only: Option<bool>,
    min_font_size: Option<u32>,
    endpoints: Option<ApiEndpoints>,
    included_paths: Option<Vec<String>>,
) -> (options: TranslationOptions)
    ensures
        options.model == model,
        options.api_key == api_key,
        options.target_lang@ == match target_lang {
            Some(v) => v@,
            None => "en"@,
        },
        options.font@ == match font {
            Some(v) => v@,
            None => "wildwords"@,
        },
        options.text_align@ == match text_align {
            Some(v) => v@,
            None => "auto"@,
        },
        options.stroke_disabled == match stroke_disabled {
            Some(v) => v,
            None => false,
        },
        options.inpaint_only == match inpaint_only {
            Some(v) => v,
            None => false,
        },
        options.min_font_size == match min_font_size {
            Some(v) => v,
            None => 12,
        },
        options.endpoints == endpoints,
        options.included_paths == included_paths,
{
    TranslationOptions {
        model,
        api_key,
        target_lang: text_or(target_lang, "en"),
        font: text_or(font, "wildwords"),
        text_align: text_or(text_align, "auto"),
        stroke_disabled: match stroke_disabled {
            Some(v) => v,
            None => false,
        },
        inpaint_only: match inpaint_only {
            Some(v) => v,
            None => false,
        },
        min_font_size: match min_font_size {
            Some(v) => v,
            None => 12,
        },
        endpoints,
        included_paths,
    }
}

/// The key that a run signs with, or the message that there is none.
pub fn require_api_key(api_key: Option<String>) -> (key: Result<String, String>)
    ensures
        match api_key {
            Some(k) => key is Ok && key->Ok_0 == k,
            None => key is Err && key->Err_0@ == "API Key not found in settings"@,
        },
{
    match api_key {
        Some(k) => Ok(k),
        None => Err("API Key not found in settings".to_owned()),
    }
}

/// Where the results of a run over images go: to the folder that was asked
/// for, else to `translated` in the input folder.
pub fn cli_output_dir(folder: &str, output_folder: Option<String>) -> (dir: String)
    ensures
        dir@ == match output_folder {
            Some(out) => out@,
            None => path_join(folder@, "translated"@),
        },
{
    match output_folder {
        Some(out) => out,
        None => join(folder, "translated"),
    }
}

/// Where the results of a run over archives go: to the folder that was asked
/// for, else to `archive_outputs` in the input folder.
pub fn archive_output_dir(folder: &str, output_folder: Option<String>) -> (dir: String)
    ensures
        dir@ == match output_folder {
            Some(out) => out@,
            None => path_join(folder@, "archive_outputs"@),
        },
{
    match output_folder {
        Some(out) => out,
        None => join(folder, "archive_outputs"),
    }
}

/// The folder into which an archive is unpacked.
pub fn extract_dir(folder: &str) -> (dir: String)
    ensures
        dir@ == path_join(folder@, "temp_extract"@),
{
    join(folder, "temp_extract")
}

/// The folder that takes the results for an unpacked archive.
pub fn translated_dir(folder: &str) -> (dir: String)
    ensures
        dir@ == path_join(folder@, "temp_translated"@),
{
    join(folder, "temp_translated")
}

/// The kinds of archive.
#[derive(Clone, Copy, Debug, PartialEq, Eq, Structural)]
pub enum ArchiveKind {
    /// A zip file, whatever it is called.
    Zip,
    /// A PDF file.
    Pdf,
}

/// The kind of archive that a file of this name is taken for, by its
/// extension in any case of letters: `zip` and `cbz` are zip files, `pdf` is a
/// PDF file, anything else is no archive.
pub open spec fn archive_kind_of(name: Seq<char>) -> Option<ArchiveKind> {
    match extension_of(name) {
        Some(e) => {
            let e = lowered(e);
            if e == "pdf"@ {
                Some(ArchiveKind::Pdf)
            } else if e == "zip"@ || e == "cbz"@ {
                Some(ArchiveKind::Zip)
            } else {
                None
            }
        },
        None => None,
    }
}

/// The kind of archive that a file of this name is taken for.
pub fn archive_kind(name: &str) -> (kind: Option<ArchiveKind>)
    ensures
        kind == archive_kind_of(name@),
{
    match file_extension(name) {
        Some(e) => {
            let chars = chars_of(e.as_str());
            let lower = to_ascii_lower(&chars);
            if same_text(lower.as_str(), "pdf") {
                Some(ArchiveKind::Pdf)
            } else if same_text(lower.as_str(), "zip") || same_text(lower.as_str(), "cbz") {
                Some(ArchiveKind::Zip)
            } else {
                None
            }
        },
        None => None,
    }
}

/// Whether the archive at `path` is selected: always where no paths are given,
/// else where it lies at or below one of them.
pub fn archive_selected(path: &str, included_paths: &Option<Vec<String>>) -> (selected: bool)
    ensures
        selected == match included_paths {
            Some(includes) => is_included(path@, texts(includes@)),
            None => true,
        },
{
    match included_paths {
        Some(includes) => path_is_included(path, includes),
        None => true,
    }
}

/// The name of the archive that takes the results: that of the source, with
/// `.cbz` behind it where the source is a PDF file.
pub fn archive_output_name(file_name: &str, kind: ArchiveKind) -> (name: String)
    ensures
        name@ == if kind == ArchiveKind::Pdf {
            file_name@ + ".cbz"@
        } else {
            file_name@
        },
{
    let mut name = file_name.to_owned();
    if let ArchiveKind::Pdf = kind {
        name.append(".cbz");
    } else {
        assert(name@ == file_name@);
    }
    name
}

/// How the work on one archive ended.
#[derive(Clone, Copy, Debug, PartialEq, Eq, Structural)]
pub enum ArchiveOutcome {
    /// It could not be unpacked.
    ExtractFailed,
    /// The run over its images failed.
    TranslateFailed,
    /// The results could not be packed.
    RepackFailed,
    /// The archive with the results was written.
    Repacked,
}

/// Counts the archives of a run.
#[derive(Clone, Copy, Debug, PartialEq, Eq, Structural)]
pub struct ArchiveTally {
    pub found: usize,
    pub succeeded: usize,
}

/// What is reported at the end of a run over archives.
pub open spec fn tally_report(tally: ArchiveTally) -> Result<Seq<char>, Seq<char>> {
    if tally.found == 0 {
        Err("No valid archives (zip, cbz, pdf) found in the selected folder."@)
    } else if tally.succeeded == 0 {
        Err("Failed to translate any archives in the folder. Check logs for details."@)
    } else {
        Ok(
            "Task completed! Processed "@ + decimal_text(tally.succeeded as nat) + "/"@
                + decimal_text(tally.found as nat) + " archives successfully."@,
        )
    }
}

impl ArchiveTally {
    /// No archive has more successes than were found.
    pub open spec fn well_formed(&self) -> bool {
        self.succeeded <= self.found
    }

    /// The tally before the first archive.
    pub fn new() -> (tally: Self)
        ensures
            tally.well_formed(),
            tally.found == 0,
            tally.succeeded == 0,
    {
        ArchiveTally { found: 0, succeeded: 0 }
    }

    /// Counts one archive. Only one whose results were packed is a success; a
    /// failure does not end the run.
    pub fn record(&mut self, outcome: ArchiveOutcome)
        requires
            old(self).well_formed(),
            old(self).found < usize::MAX,
        ensures
            final(self).well_formed(),
            final(self).found == old(self).found + 1,
            final(self).succeeded == old(self).succeeded + (if outcome == ArchiveOutcome::Repacked {
                1int
            } else {
                0int
            }),
    {
        self.found = self.found + 1;
        if let ArchiveOutcome::Repacked = outcome {
            self.succeeded = self.succeeded + 1;
        }
    }

    /// The end of the run: a failure where no archive was found or none was
    /// done, else the message of how many were.
    pub fn finish(&self) -> (report: Result<String, String>)
        ensures
            report is Ok <==> tally_report(*self) is Ok,
            report matches Ok(m) ==> m@ == tally_report(*self)->Ok_0,
            report matches Err(m) ==> m@ == tally_report(*self)->Err_0,
    {
        if self.found == 0 {
            Err("No valid archives (zip, cbz, pdf) found in the selected folder.".to_owned())
        } else if self.succeeded == 0 {
            Err(
                "Failed to translate any archives in the folder. Check logs for details.".to_owned(),
            )
        } else {
            let mut message = "Task completed! Processed ".to_owned();
            push_decimal(&mut message, self.succeeded as u64);
            message.append("/");
            push_decimal(&mut message, self.found as u64);
            message.append(" archives successfully.");
            Ok(message)
        }
    }
}

} // verus!
