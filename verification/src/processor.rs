//! The decisions of one run over a directory: which files are left out, which
//! are queued for transformation, and what is recorded once a file is done.

use crate::api::{ApiClient, ApiEndpoints, Header};
use crate::history::HistoryRecord;
use crate::paths::{
    file_name, join, parent, path_file_name, path_join, path_parent, path_strip_prefix,
    has_no_separator, path_with_extension, strip_prefix, with_extension,
};
use crate::text::{chars_of, decimal_text, push_decimal, starts_with, texts};
use vstd::prelude::*;
use vstd::string::StringExecFns;

verus! {

/// What a run is asked to do with every file.
pub struct TranslationOptions {
    pub model: String,
    pub api_key: String,
    pub target_lang: String,
    pub font: String,
    pub text_align: String,
    pub stroke_disabled: bool,
    pub inpaint_only: bool,
    pub min_font_size: u32,
    /// The service addresses, where they are not the service's own.
    pub endpoints: Option<ApiEndpoints>,
    /// Where given, only files at or below one of these paths are taken.
    pub included_paths: Option<Vec<String>>,
}

impl TranslationOptions {
    /// The client for the service that the options name.
    pub fn client(&self) -> (client: ApiClient)
        ensures
            client.key() == crate::text::trimmed(self.api_key@),
            self.endpoints matches Some(e) ==> client.addresses() == e,
            self.endpoints is None ==> client.addresses().translate@
                == "https://api.toriitranslate.com/api/upload"@ && client.addresses().storage@
                == "https://api.toriitranslate.com/api/storage"@ && client.addresses().ocr@
                == "https://api.toriitranslate.com/api/ocr"@
                && client.addresses().storage_headers is None
                && client.addresses().ocr_headers is None
                && !client.addresses().save_debug_json,
    {
        match &self.endpoints {
            Some(e) => ApiClient::new_with_endpoints(
                self.api_key.clone(),
                ApiEndpoints {
                    storage: e.storage.clone(),
                    storage_headers: match &e.storage_headers {
                        Some(h) => Some(h.clone()),
                        None => None,
                    },
                    ocr: e.ocr.clone(),
                    ocr_headers: match &e.ocr_headers {
                        Some(h) => Some(h.clone()),
                        None => None,
                    },
                    translate: e.translate.clone(),
                    save_debug_json: e.save_debug_json,
                },
            ),
            None => ApiClient::new(self.api_key.clone()),
        }
    }

    /// The headers of the request for one file.
    pub fn request_headers(&self, client: &ApiClient) -> (headers: Vec<Header>)
        ensures
            crate::api::header_texts(headers@) == crate::api::translate_header_texts(
                client.key(),
                self.model@,
                self.target_lang@,
                self.font@,
                self.text_align@,
                self.stroke_disabled,
                self.inpaint_only,
                self.min_font_size,
            ),
    {
        client.translate_headers(
            self.model.as_str(),
            self.target_lang.as_str(),
            self.font.as_str(),
            self.text_align.as_str(),
            self.stroke_disabled,
            self.inpaint_only,
            self.min_font_size,
        )
    }

    /// The files of the scan that the options select: all of them, or where
    /// paths are given those at or below one of the paths.
    pub fn select(&self, images: Vec<String>) -> (selected: Vec<String>)
        ensures
            texts(selected@) == match self.included_paths {
                Some(includes) => texts(images@).filter(
                    |p: Seq<char>| is_included(p, texts(includes@)),
                ),
                None => texts(images@),
            },
    {
        match &self.included_paths {
            Some(includes) => retain_included(images, includes),
            None => images,
        }
    }
}

/// The history file of an input root.
pub fn history_path(input_dir: &str) -> (path: String)
    ensures
        path@ == path_join(input_dir@, ".f_history"@),
{
    join(input_dir, ".f_history")
}

/// The file that is written first and then renamed when `path` is replaced.
pub fn temp_path(path: &str) -> (temp: String)
    ensures
        temp@ == path_with_extension(path@, "tmp"@),
{
    proof {
        reveal_strlit("tmp");
        assert(has_no_separator("tmp"@));
    }
    with_extension(path, "tmp")
}

/// The file that takes the compressed copy of a source file.
pub fn compressed_path(path: &str) -> (temp: String)
    ensures
        temp@ == path_with_extension(path@, "tmp.jpg"@),
{
    proof {
        reveal_strlit("tmp.jpg");
        assert(has_no_separator("tmp.jpg"@));
    }
    with_extension(path, "tmp.jpg")
}

/// Credits charged for one transformed file by the given model.
pub open spec fn model_cost(model: Seq<char>) -> nat {
    1
}

/// Returns the credits charged for one transformed file by `model`.
pub fn get_model_cost(model: &str) -> (cost: u64)
    ensures
        cost == model_cost(model@),
{
    1
}

/// `path` lies at or below one of the `includes`: one of them is a prefix of it.
pub open spec fn is_included(path: Seq<char>, includes: Seq<Seq<char>>) -> bool {
    exists|i: int| 0 <= i < includes.len() && (#[trigger] includes[i]).is_prefix_of(path)
}

/// Whether `path` lies at or below one of the `includes`.
pub fn path_is_included(path: &str, includes: &Vec<String>) -> (kept: bool)
    ensures
        kept == is_included(path@, texts(includes@)),
{
    let path_chars = chars_of(path);
    let mut i: usize = 0;
    while i < includes.len()
        invariant
            i <= includes.len(),
            path_chars@ == path@,
            forall|j: int| 0 <= j < i ==> !(#[trigger] texts(includes@)[j]).is_prefix_of(path@),
        decreases includes.len() - i,
    {
        let prefix = chars_of(includes[i].as_str());
        if starts_with(&path_chars, &prefix) {
            assert(texts(includes@)[i as int] == prefix@);
            return true;
        }
        assert(texts(includes@)[i as int] == prefix@);
        i += 1;
    }
    false
}

/// Keeps the images that lie at or below one of the `includes`, in their order.
pub fn retain_included(images: Vec<String>, includes: &Vec<String>) -> (kept: Vec<String>)
    ensures
        texts(kept@) == texts(images@).filter(|p: Seq<char>| is_included(p, texts(includes@))),
{
    let ghost wanted = |p: Seq<char>| is_included(p, texts(includes@));
    let mut kept: Vec<String> = Vec::new();
    let mut i: usize = 0;
    assert(texts(images@).take(0) =~= Seq::<Seq<char>>::empty());
    assert(texts(kept@) =~= Seq::<Seq<char>>::empty());
    while i < images.len()
        invariant
            i <= images.len(),
            wanted == |p: Seq<char>| is_included(p, texts(includes@)),
            texts(kept@) == texts(images@).take(i as int).filter(wanted),
        decreases images.len() - i,
    {
        let ghost before = texts(kept@);
        proof {
            let next = texts(images@).take(i + 1);
            assert(next.drop_last() =~= texts(images@).take(i as int));
            assert(next.last() == images@[i as int]@);
            reveal_with_fuel(Seq::filter, 2);
        }
        if path_is_included(images[i].as_str(), includes) {
            kept.push(images[i].clone());
            assert(texts(kept@) =~= before.push(images@[i as int]@));
        }
        i += 1;
    }
    assert(texts(images@).take(images@.len() as int) =~= texts(images@));
    kept
}

/// The path of a file relative to the scan root: what is left of it below the
/// root, else its file name, else the word `unknown`.
pub open spec fn relative_text(stripped: Option<Seq<char>>, name: Option<Seq<char>>) -> Seq<char> {
    match stripped {
        Some(rest) => rest,
        None => match name {
            Some(n) => n,
            None => "unknown"@,
        },
    }
}

/// Picks the relative path of a file from what is left of its path below the
/// scan root (`stripped`) and from its file name.
pub fn relative_path(stripped: Option<String>, name: Option<String>) -> (relative: String)
    ensures
        relative@ == relative_text(
            match stripped {
                Some(s) => Some(s@),
                None => None,
            },
            match name {
                Some(n) => Some(n@),
                None => None,
            },
        ),
{
    match stripped {
        Some(rest) => rest,
        None => match name {
            Some(n) => n,
            None => "unknown".to_owned(),
        },
    }
}

/// The place of a file's result: the file's path relative to the scan root,
/// mirrored under the output directory.
pub open spec fn mirrored_path(input_dir: Seq<char>, output_dir: Seq<char>, path: Seq<char>) -> Seq<
    char,
> {
    path_join(
        output_dir,
        relative_text(path_strip_prefix(path, input_dir), path_file_name(path)),
    )
}

/// Computes where the result of `path` is written.
pub fn output_path(input_dir: &str, output_dir: &str, path: &str) -> (out: String)
    ensures
        out@ == mirrored_path(input_dir@, output_dir@, path@),
{
    let stripped = strip_prefix(path, input_dir);
    let name = match stripped {
        Some(_) => None,
        None => file_name(path),
    };
    let relative = relative_path(stripped, name);
    join(output_dir, relative.as_str())
}

/// A file found by the scan, with the place of its result.
pub struct ScannedFile {
    pub path: String,
    pub out_path: String,
    /// Whether something already stands at `out_path`.
    pub output_exists: bool,
}

/// A `ScannedFile` as plain text.
pub struct ScannedFileView {
    pub path: Seq<char>,
    pub out_path: Seq<char>,
    pub output_exists: bool,
}

impl View for ScannedFile {
    type V = ScannedFileView;

    open spec fn view(&self) -> ScannedFileView {
        ScannedFileView {
            path: self.path@,
            out_path: self.out_path@,
            output_exists: self.output_exists,
        }
    }
}

/// The views of a list of scanned files.
pub open spec fn scanned_views(files: Seq<ScannedFile>) -> Seq<ScannedFileView> {
    Seq::new(files.len(), |i: int| files[i]@)
}

/// The files whose output is not there yet, in scan order.
pub open spec fn pending_of(files: Seq<ScannedFileView>) -> Seq<ScannedFileView> {
    files.filter(|f: ScannedFileView| !f.output_exists)
}

/// What the check for existing outputs made of the scanned files.
pub struct Prefilter {
    /// The files still to hash, in scan order.
    pub pending: Vec<ScannedFile>,
    /// Files left out because their output is already there.
    pub skipped: usize,
}

/// Leaves out the files whose output already exists; the others wait for hashing.
pub fn split_existing(files: Vec<ScannedFile>) -> (pre: Prefilter)
    ensures
        scanned_views(pre.pending@) == pending_of(scanned_views(files@)),
        pre.skipped == scanned_views(files@).filter(|f: ScannedFileView| f.output_exists).len(),
        pre.pending@.len() + pre.skipped == files@.len(),
{
    let ghost all = scanned_views(files@);
    let ghost missing = |f: ScannedFileView| !f.output_exists;
    let ghost present = |f: ScannedFileView| f.output_exists;
    let total: usize = files.len();
    let mut rest = crate::lists::reversed(files);
    let mut pending: Vec<ScannedFile> = Vec::new();
    let mut skipped: usize = 0;
    let mut done: usize = 0;
    assert(scanned_views(rest@).reverse() =~= all);
    assert(all.take(0) =~= Seq::<ScannedFileView>::empty());
    assert(scanned_views(pending@) =~= Seq::<ScannedFileView>::empty());
    while rest.len() > 0
        invariant
            missing == |f: ScannedFileView| !f.output_exists,
            present == |f: ScannedFileView| f.output_exists,
            all.len() == total,
            done + rest@.len() == total,
            all.take(done as int) + scanned_views(rest@).reverse() == all,
            scanned_views(pending@) == all.take(done as int).filter(missing),
            skipped == all.take(done as int).filter(present).len(),
            pending@.len() + skipped == done,
        decreases rest.len(),
    {
        let ghost rest_before = scanned_views(rest@);
        let ghost pending_before = scanned_views(pending@);
        let f = rest.pop().unwrap();
        proof {
            assert(scanned_views(rest@) =~= rest_before.drop_last());
            assert(rest_before.reverse() =~= seq![f@] + scanned_views(rest@).reverse());
            assert(all[done as int] == (all.take(done as int) + rest_before.reverse())[done as int]);
            let next = all.take(done + 1);
            assert(next.drop_last() =~= all.take(done as int));
            assert(next.last() == f@);
            reveal_with_fuel(Seq::filter, 2);
            assert(next + scanned_views(rest@).reverse() =~= all.take(done as int)
                + rest_before.reverse());
        }
        if f.output_exists {
            skipped += 1;
        } else {
            pending.push(f);
            assert(scanned_views(pending@) =~= pending_before.push(f@));
        }
        done += 1;
    }
    assert(all.take(total as int) =~= all);
    Prefilter { pending, skipped }
}

/// A file whose output is not there yet, after the attempt to hash it.
pub struct HashedFile {
    pub path: String,
    pub out_path: String,
    /// The digest of the file's content; `None` where hashing failed.
    pub hash: Option<String>,
}

/// A `HashedFile` as plain text.
pub struct HashedFileView {
    pub path: Seq<char>,
    pub out_path: Seq<char>,
    pub hash: Option<Seq<char>>,
}

impl View for HashedFile {
    type V = HashedFileView;

    open spec fn view(&self) -> HashedFileView {
        HashedFileView {
            path: self.path@,
            out_path: self.out_path@,
            hash: match self.hash {
                Some(h) => Some(h@),
                None => None,
            },
        }
    }
}

/// A file queued for transformation.
pub struct WorkItem {
    pub path: String,
    pub out_path: String,
    pub hash: String,
}

/// A `WorkItem` as plain text.
pub struct WorkItemView {
    pub path: Seq<char>,
    pub out_path: Seq<char>,
    pub hash: Seq<char>,
}

impl View for WorkItem {
    type V = WorkItemView;

    open spec fn view(&self) -> WorkItemView {
        WorkItemView { path: self.path@, out_path: self.out_path@, hash: self.hash@ }
    }
}

/// The views of a list of hashed files.
pub open spec fn hashed_views(files: Seq<HashedFile>) -> Seq<HashedFileView> {
    Seq::new(files.len(), |i: int| files[i]@)
}

/// The views of a list of work items.
pub open spec fn item_views(items: Seq<WorkItem>) -> Seq<WorkItemView> {
    Seq::new(items.len(), |i: int| items[i]@)
}

/// A digest counts as handled when the history or the cache snapshot holds it.
pub open spec fn is_known(hash: Seq<char>, history: Set<Seq<char>>, cached: Set<Seq<char>>) -> bool {
    history.contains(hash) || cached.contains(hash)
}

/// The file has a digest, and that digest is already handled.
pub open spec fn is_duplicate(
    file: HashedFileView,
    history: Set<Seq<char>>,
    cached: Set<Seq<char>>,
) -> bool {
    file.hash matches Some(h) && is_known(h, history, cached)
}

/// The file has a digest that is not handled yet.
pub open spec fn is_unseen(
    file: HashedFileView,
    history: Set<Seq<char>>,
    cached: Set<Seq<char>>,
) -> bool {
    file.hash matches Some(h) && !is_known(h, history, cached)
}

/// The work item of a hashed file.
pub open spec fn as_item(file: HashedFileView) -> WorkItemView {
    WorkItemView { path: file.path, out_path: file.out_path, hash: file.hash.unwrap() }
}

/// The queue of a run: the unseen files, in the order in which their digests came in.
pub open spec fn queue_of(
    files: Seq<HashedFileView>,
    history: Set<Seq<char>>,
    cached: Set<Seq<char>>,
) -> Seq<WorkItemView> {
    files.filter(|f: HashedFileView| is_unseen(f, history, cached)).map_values(
        |f: HashedFileView| as_item(f),
    )
}

/// How many of the files are left out because their digest is already handled.
pub open spec fn duplicates_in(
    files: Seq<HashedFileView>,
    history: Set<Seq<char>>,
    cached: Set<Seq<char>>,
) -> nat {
    files.filter(|f: HashedFileView| is_duplicate(f, history, cached)).len()
}

/// How many of the files have no digest because hashing them failed.
pub open spec fn unhashed_in(files: Seq<HashedFileView>) -> nat {
    files.filter(|f: HashedFileView| f.hash is None).len()
}

/// What the dedup decision made of the hashed files.
pub struct Selection {
    /// The files to transform, in the order in which their digests came in.
    pub queue: Vec<WorkItem>,
    /// Files left out because the history or the cache snapshot holds their digest.
    pub skipped: usize,
    /// Files dropped from this run because hashing them failed.
    pub dropped: usize,
}

/// Whether `hash` is among `hashes`.
pub fn holds_hash(hashes: &Vec<String>, hash: &str) -> (found: bool)
    ensures
        found == texts(hashes@).to_set().contains(hash@),
{
    let mut i: usize = 0;
    while i < hashes.len()
        invariant
            i <= hashes.len(),
            forall|j: int| 0 <= j < i ==> texts(hashes@)[j] != hash@,
        decreases hashes.len() - i,
    {
        if crate::text::same_text(hashes[i].as_str(), hash) {
            assert(texts(hashes@)[i as int] == hash@);
            return true;
        }
        i += 1;
    }
    false
}

/// Sorts the hashed files of a run: a file whose digest the history or the
/// cache snapshot holds is skipped, one without a digest is dropped, every other
/// one is queued.
pub fn select_unseen(files: Vec<HashedFile>, history: &HistoryRecord, cached: &Vec<String>) -> (sel:
    Selection)
    ensures
        item_views(sel.queue@) == queue_of(
            hashed_views(files@),
            history@,
            texts(cached@).to_set(),
        ),
        sel.skipped == duplicates_in(hashed_views(files@), history@, texts(cached@).to_set()),
        sel.dropped == unhashed_in(hashed_views(files@)),
        sel.queue@.len() + sel.skipped + sel.dropped == files@.len(),
{
    let ghost all = hashed_views(files@);
    let ghost cache = texts(cached@).to_set();
    let ghost unseen = |f: HashedFileView| is_unseen(f, history@, cache);
    let ghost duplicate = |f: HashedFileView| is_duplicate(f, history@, cache);
    let ghost unhashed = |f: HashedFileView| f.hash is None;
    let ghost item = |f: HashedFileView| as_item(f);
    let mut queue: Vec<WorkItem> = Vec::new();
    let mut skipped: usize = 0;
    let mut dropped: usize = 0;
    let total: usize = files.len();
    let mut rest = crate::lists::reversed(files);
    assert(hashed_views(rest@).reverse() =~= all);
    assert(all.take(0) =~= Seq::<HashedFileView>::empty());
    assert(item_views(queue@) =~= Seq::<WorkItemView>::empty());
    let mut done: usize = 0;
    while rest.len() > 0
        invariant
            unseen == |f: HashedFileView| is_unseen(f, history@, cache),
            duplicate == |f: HashedFileView| is_duplicate(f, history@, cache),
            unhashed == |f: HashedFileView| f.hash is None,
            item == |f: HashedFileView| as_item(f),
            cache == texts(cached@).to_set(),
            all.len() == total,
            done + rest@.len() == total,
            all.take(done as int) + hashed_views(rest@).reverse() == all,
            item_views(queue@) == all.take(done as int).filter(unseen).map_values(item),
            skipped == all.take(done as int).filter(duplicate).len(),
            dropped == all.take(done as int).filter(unhashed).len(),
            queue@.len() + skipped + dropped == done,
        decreases rest.len(),
    {
        let ghost rest_before = hashed_views(rest@);
        let ghost queue_before = item_views(queue@);
        let f = rest.pop().unwrap();
        proof {
            assert(hashed_views(rest@) =~= rest_before.drop_last());
            assert(rest_before.reverse() =~= seq![f@] + hashed_views(rest@).reverse());
            assert(all[done as int] == (all.take(done as int) + rest_before.reverse())[done as int]);
            assert(all[done as int] == f@);
            let next = all.take(done + 1);
            assert(next.drop_last() =~= all.take(done as int));
            assert(next.last() == f@);
            reveal_with_fuel(Seq::filter, 2);
            assert(next + hashed_views(rest@).reverse() =~= all.take(done as int)
                + rest_before.reverse());
        }
        let HashedFile { path, out_path, hash } = f;
        match hash {
            Some(h) => {
                if history.contains(h.as_str()) || holds_hash(cached, h.as_str()) {
                    skipped += 1;
                } else {
                    let ghost kept = all.take(done as int).filter(unseen);
                    queue.push(WorkItem { path, out_path, hash: h });
                    assert(item_views(queue@) =~= queue_before.push(as_item(f@)));
                    assert(kept.push(f@).map_values(item) =~= kept.map_values(item).push(
                        as_item(f@),
                    ));
                }
            },
            None => {
                dropped += 1;
            },
        }
        done += 1;
    }
    assert(all.take(total as int) =~= all);
    Selection { queue, skipped, dropped }
}

/// Why a run ends before any file is sent.
#[derive(Debug)]
pub enum RunError {
    /// The scan found no input file, or none that was selected.
    NoEligibleFiles,
    /// The output directory could not be made.
    OutputDirectory { reason: String },
}

/// The message of a run's error.
pub open spec fn run_error_text(error: RunError) -> Seq<char> {
    match error {
        RunError::NoEligibleFiles => "No images found in directory (or none selected)."@,
        RunError::OutputDirectory { reason } => "Could not create the output directory: "@
            + reason@,
    }
}

impl RunError {
    /// The message that is shown for the error.
    pub fn message(&self) -> (message: String)
        ensures
            message@ == run_error_text(*self),
    {
        match self {
            RunError::NoEligibleFiles => "No images found in directory (or none selected).".to_owned(),
            RunError::OutputDirectory { reason } => {
                let mut message = "Could not create the output directory: ".to_owned();
                message.append(reason.as_str());
                message
            },
        }
    }
}

/// A run needs at least one input file.
pub fn require_candidates(images: &Vec<String>) -> (checked: Result<(), RunError>)
    ensures
        checked is Ok <==> images@.len() > 0,
        checked is Err ==> checked->Err_0 is NoEligibleFiles,
{
    if images.len() == 0 {
        Err(RunError::NoEligibleFiles)
    } else {
        Ok(())
    }
}

/// The message at the start of the scan of `total` files.
pub fn scan_message(total: usize) -> (message: String)
    ensures
        message@ == "Dosyalar taranıyor ("@ + decimal_text(total as nat) + ")..."@,
{
    let mut message = "Dosyalar taranıyor (".to_owned();
    push_decimal(&mut message, total as u64);
    message.append(")...");
    message
}

/// The message for the files left out because their output exists; none where
/// there is no such file.
pub fn existing_message(skipped: usize) -> (message: Option<String>)
    ensures
        message is Some <==> skipped > 0,
        message matches Some(m) ==> m@ == "... "@ + decimal_text(skipped as nat)
            + " dosya zaten var, atlandı."@,
{
    if skipped > 0 {
        let mut message = "... ".to_owned();
        push_decimal(&mut message, skipped as u64);
        message.append(" dosya zaten var, atlandı.");
        Some(message)
    } else {
        None
    }
}

/// The message for the files left out because their digest is known; none
/// where there is no such file.
pub fn known_message(skipped: usize) -> (message: Option<String>)
    ensures
        message is Some <==> skipped > 0,
        message matches Some(m) ==> m@ == "... "@ + decimal_text(skipped as nat)
            + " dosya tarihçeye göre atlandı."@,
{
    if skipped > 0 {
        let mut message = "... ".to_owned();
        push_decimal(&mut message, skipped as u64);
        message.append(" dosya tarihçeye göre atlandı.");
        Some(message)
    } else {
        None
    }
}

/// The message for the queue: how many files will be sent, or that all are done.
pub fn queue_message(queued: usize) -> (message: String)
    ensures
        message@ == if queued == 0 {
            "Tüm dosyalar zaten işlenmiş."@
        } else {
            "İşlenecek dosya sayısı: "@ + decimal_text(queued as nat)
        },
{
    if queued == 0 {
        "Tüm dosyalar zaten işlenmiş.".to_owned()
    } else {
        let mut message = "İşlenecek dosya sayısı: ".to_owned();
        push_decimal(&mut message, queued as u64);
        message
    }
}

/// The message for the file that is sent next.
pub fn progress_message(current: usize, total: usize, name: &str) -> (message: String)
    ensures
        message@ == "Processing "@ + decimal_text(current as nat) + "/"@ + decimal_text(
            total as nat,
        ) + " - "@ + name@,
{
    let mut message = "Processing ".to_owned();
    push_decimal(&mut message, current as u64);
    message.append("/");
    push_decimal(&mut message, total as u64);
    message.append(" - ");
    message.append(name);
    message
}

/// The message for a file that is compressed before it is sent.
pub fn compressing_message(name: &str) -> (message: String)
    ensures
        message@ == "Compressing large file: "@ + name@,
{
    let mut message = "Compressing large file: ".to_owned();
    message.append(name);
    message
}

/// The message for a file whose result could not be written.
pub fn save_failed_message(error: &str) -> (message: String)
    ensures
        message@ == "Kaydetme Hatası: "@ + error@,
{
    let mut message = "Kaydetme Hatası: ".to_owned();
    message.append(error);
    message
}

/// The message for a file that the service did not transform.
pub fn transform_failed_message(name: &str, error: &str) -> (message: String)
    ensures
        message@ == "Failed to translate "@ + name@ + ": "@ + error@,
{
    let mut message = "Failed to translate ".to_owned();
    message.append(name);
    message.append(": ");
    message.append(error);
    message
}

/// The message for the pause between two files.
pub fn waiting_message() -> (message: String)
    ensures
        message@ == "Waiting "@ + decimal_text(RATE_LIMIT_DELAY_SECS as nat) + " seconds..."@,
{
    let mut message = "Waiting ".to_owned();
    push_decimal(&mut message, RATE_LIMIT_DELAY_SECS);
    message.append(" seconds...");
    message
}

/// After this many recorded files the history is written to disk.
pub const FLUSH_EVERY: usize = 10;

/// Seconds to wait after each file before the next one is sent.
pub const RATE_LIMIT_DELAY_SECS: u64 = 3;

/// A source file larger than this many bytes is compressed before it is sent.
pub const COMPRESSION_THRESHOLD_BYTES: u64 = 15 * 1024 * 1024;

/// Whether a source file of `size` bytes has to be compressed before it is sent.
pub fn needs_compression(size: u64) -> (needed: bool)
    ensures
        needed == (size > COMPRESSION_THRESHOLD_BYTES),
{
    size > COMPRESSION_THRESHOLD_BYTES
}

/// What is sent for a source file, and what is cleared away afterwards.
pub struct SendPlan {
    /// The file to send.
    pub path: String,
    /// The temporary file to remove once the file is done, however it ends.
    pub temp: Option<String>,
}

/// The compressed copy is sent for a file of more than the threshold whose
/// copy was written.
pub open spec fn sends_copy(size: Option<u64>, compressed: bool) -> bool {
    compressed && size is Some && size.unwrap() > COMPRESSION_THRESHOLD_BYTES
}

/// Decides what is sent for the file at `path`. `size` is the size of the file
/// where it could be read; `compressed` says whether the compressed copy was
/// written. The copy is sent in place of a file that is over the threshold and
/// has its copy; any other file is sent as it is.
pub fn plan_send(path: &str, size: Option<u64>, compressed: bool) -> (plan: SendPlan)
    ensures
        sends_copy(size, compressed) ==> plan.path@ == path_with_extension(path@, "tmp.jpg"@)
            && plan.temp is Some && plan.temp.unwrap()@ == plan.path@,
        !sends_copy(size, compressed) ==> plan.path@ == path@ && plan.temp is None,
{
    let large = match size {
        Some(s) => needs_compression(s),
        None => false,
    };
    if large && compressed {
        SendPlan { path: compressed_path(path), temp: Some(compressed_path(path)) }
    } else {
        SendPlan { path: path.to_owned(), temp: None }
    }
}

/// The folder of a file that lies in no named directory.
pub const ROOT_FOLDER: &'static str = "Root";

/// The name under which a file is entered in the cache: its file name, or
/// nothing where the path has none.
pub open spec fn entry_name(path: Seq<char>) -> Seq<char> {
    match path_file_name(path) {
        Some(name) => name,
        None => Seq::empty(),
    }
}

/// The folder under which a file is entered in the cache: the name of the
/// directory it lies in, or `ROOT_FOLDER` where there is none.
pub open spec fn entry_folder(path: Seq<char>) -> Seq<char> {
    match path_parent(path) {
        Some(dir) => match path_file_name(dir) {
            Some(name) => name,
            None => ROOT_FOLDER@,
        },
        None => ROOT_FOLDER@,
    }
}

/// The given name, or `fallback` where there is none.
pub fn name_or(name: Option<String>, fallback: &str) -> (label: String)
    ensures
        label@ == match name {
            Some(n) => n@,
            None => fallback@,
        },
{
    match name {
        Some(n) => n,
        None => fallback.to_owned(),
    }
}

/// The name of the file at `path`, as it is shown and entered in the cache.
pub fn display_name(path: &str) -> (name: String)
    ensures
        name@ == entry_name(path@),
{
    proof {
        reveal_strlit("");
        assert(""@ =~= Seq::<char>::empty());
    }
    name_or(file_name(path), "")
}

/// What is written to the cache store for a transformed file.
pub struct CacheWrite {
    pub hash: String,
    pub name: String,
    pub folder: String,
}

/// How the transformation of one file ended.
pub enum ItemOutcome {
    /// The service returned the result and it was written to the output path.
    Saved,
    /// The service returned the result, but writing it failed.
    SaveFailed,
    /// The service gave no result within its retries.
    TransformFailed,
}

/// What is to be done after a file, besides going on to the next one.
pub struct Followup {
    /// Write the history to disk now.
    pub flush_history: bool,
    /// Enter this in the cache store; a failure to do so is ignored.
    pub cache_entry: Option<CacheWrite>,
    /// Credits that the file has cost.
    pub credits: u64,
    /// Seconds to wait before the next file.
    pub delay_secs: u64,
}

/// The history of a run while its queue is worked through one file at a time.
pub struct TransformStage {
    history: HistoryRecord,
    unsaved: usize,
    start: Ghost<Set<Seq<char>>>,
    log: Ghost<Seq<Seq<char>>>,
}

/// The history after a file with digest `hash` has ended with `outcome`.
pub open spec fn history_after(history: Set<Seq<char>>, hash: Seq<char>, outcome: ItemOutcome) -> Set<
    Seq<char>,
> {
    if outcome is Saved && hash.len() > 0 {
        history.insert(hash)
    } else {
        history
    }
}

impl TransformStage {
    /// The digests held in memory.
    pub closed spec fn history_set(&self) -> Set<Seq<char>> {
        self.history@
    }

    /// The digests that the history held when the stage began.
    pub closed spec fn starting_set(&self) -> Set<Seq<char>> {
        self.start@
    }

    /// The digests that have been recorded in the history during this run, in
    /// the order in which their files were saved.
    pub closed spec fn recorded_digests(&self) -> Seq<Seq<char>> {
        self.log@
    }

    /// How many files have been recorded in the history during this run.
    pub open spec fn recorded(&self) -> nat {
        self.recorded_digests().len()
    }

    /// How many files have been recorded since the history was last handed out
    /// for writing.
    pub closed spec fn unsaved(&self) -> nat {
        self.unsaved as nat
    }

    /// The digests that the history file holds: what was in memory when the
    /// history was last handed out for writing, or at the start. These are the
    /// digests of the start and all recorded ones but the latest `unsaved()`.
    pub closed spec fn persisted(&self) -> Set<Seq<char>> {
        self.start@.union(self.log@.take(self.log@.len() - self.unsaved).to_set())
    }

    /// What holds of the stage between any two files.
    pub closed spec fn well_formed(&self) -> bool {
        &&& self.history.well_formed()
        &&& self.unsaved < FLUSH_EVERY
        &&& self.unsaved == self.log@.len() % (FLUSH_EVERY as nat)
        &&& self.history@ == self.start@.union(self.log@.to_set())
    }

    /// Starts a stage on the history that was read from disk.
    pub fn new(history: HistoryRecord) -> (stage: Self)
        requires
            history.well_formed(),
        ensures
            stage.well_formed(),
            stage.history_set() == history@,
            stage.starting_set() == history@,
            stage.recorded_digests() == Seq::<Seq<char>>::empty(),
            stage.persisted() == history@,
            stage.unsaved() == 0,
    {
        let stage = TransformStage {
            history,
            unsaved: 0,
            start: Ghost(history@),
            log: Ghost(Seq::empty()),
        };
        assert(stage.log@.take(0).to_set() =~= Set::<Seq<char>>::empty());
        assert(stage.log@.to_set() =~= Set::<Seq<char>>::empty());
        assert(stage.start@.union(Set::<Seq<char>>::empty()) =~= stage.start@);
        stage
    }

    /// The history as it stands in memory.
    pub fn history(&self) -> (history: &HistoryRecord)
        requires
            self.well_formed(),
        ensures
            history.well_formed(),
            history@ == self.history_set(),
    {
        &self.history
    }

    /// Records how the transformation of `item` ended. A saved file with a
    /// digest enters the history and is offered to the cache; with every tenth
    /// such file the history is handed out for writing.
    pub fn record(&mut self, item: &WorkItem, outcome: ItemOutcome, model: &str) -> (next: Followup)
        requires
            old(self).well_formed(),
        ensures
            final(self).well_formed(),
            final(self).history_set() == history_after(old(self).history_set(), item.hash@, outcome),
            final(self).starting_set() == old(self).starting_set(),
            final(self).recorded_digests() == if outcome is Saved && item.hash@.len() > 0 {
                old(self).recorded_digests().push(item.hash@)
            } else {
                old(self).recorded_digests()
            },
            next.flush_history == (outcome is Saved && item.hash@.len() > 0 && old(self).unsaved()
                + 1 == FLUSH_EVERY),
            final(self).persisted() == if next.flush_history {
                final(self).history_set()
            } else {
                old(self).persisted()
            },
            final(self).unsaved() == final(self).recorded() % (FLUSH_EVERY as nat),
            next.credits == if outcome is Saved {
                model_cost(model@)
            } else {
                0
            },
            next.delay_secs == RATE_LIMIT_DELAY_SECS,
            next.cache_entry is Some <==> outcome is Saved && item.hash@.len() > 0,
            next.cache_entry matches Some(entry) ==> entry.hash@ == item.hash@ && entry.name@
                == entry_name(item.path@) && entry.folder@ == entry_folder(item.path@),
    {
        let mut flush_history = false;
        let mut cache_entry: Option<CacheWrite> = None;
        let mut credits: u64 = 0;
        if let ItemOutcome::Saved = outcome {
            credits = get_model_cost(model);
            if item.hash.as_str().unicode_len() > 0 {
                let ghost before = self.history@;
                let ghost hash = item.hash@;
                self.history.insert(item.hash.clone());
                let name = name_or(file_name(item.path.as_str()), "");
                let folder = match parent(item.path.as_str()) {
                    Some(dir) => name_or(file_name(dir.as_str()), ROOT_FOLDER),
                    None => ROOT_FOLDER.to_owned(),
                };
                proof {
                    reveal_strlit("");
                    assert(""@ =~= Seq::<char>::empty());
                }
                cache_entry = Some(CacheWrite { hash: item.hash.clone(), name, folder });
                let ghost log = self.log@;
                proof {
                    let k = log.len();
                    assert((k + 1) % 10 == if k % 10 == 9 { 0nat } else { (k % 10 + 1) as nat })
                        by (nonlinear_arith)
                        requires k >= 0;
                    assert(log.push(hash).to_set() =~= log.to_set().insert(hash)) by {
                        assert forall|x: Seq<char>| log.push(hash).contains(x) <==> log.to_set().insert(
                            hash,
                        ).contains(x) by {
                            if log.push(hash).contains(x) {
                                let i = choose|i: int|
                                    0 <= i < log.push(hash).len() && log.push(hash)[i] == x;
                                if i < log.len() {
                                    assert(log[i] == x);
                                }
                            }
                            if log.contains(x) {
                                let i = choose|i: int| 0 <= i < log.len() && log[i] == x;
                                assert(log.push(hash)[i] == x);
                            }
                            if x == hash {
                                assert(log.push(hash)[log.len() as int] == hash);
                            }
                        }
                    }
                    assert(before.insert(hash) =~= self.start@.union(log.push(hash).to_set()));
                    assert(log.push(hash).take(log.len() - self.unsaved) =~= log.take(
                        log.len() - self.unsaved,
                    ));
                }
                self.log = Ghost(log.push(hash));
                self.unsaved = self.unsaved + 1;
                if self.unsaved >= FLUSH_EVERY {
                    flush_history = true;
                    self.unsaved = 0;
                    assert(self.log@.take(self.log@.len() as int) =~= self.log@);
                }
            }
        }
        Followup { flush_history, cache_entry, credits, delay_secs: RATE_LIMIT_DELAY_SECS }
    }

    /// Ends the stage. The history is handed back, with the word whether it
    /// still has to be written to disk.
    pub fn finish(self) -> (end: (HistoryRecord, bool))
        requires
            self.well_formed(),
        ensures
            end.0.well_formed(),
            end.0@ == self.history_set(),
            end.1 == (self.unsaved() > 0),
            !end.1 ==> self.persisted() == self.history_set(),
    {
        let flush = self.unsaved > 0;
        proof {
            if !flush {
                assert(self.log@.take(self.log@.len() as int) =~= self.log@);
            }
        }
        (self.history, flush)
    }
}

/// However a run is cut short between two files, the history file lacks only
/// digests that were recorded since it was last handed out for writing: at most
/// as many as the number of recorded files leaves over when divided by ten, and
/// every other digest in memory is in the file.
pub proof fn lemma_crash_loses_only_the_open_batch(stage: TransformStage)
    requires
        stage.well_formed(),
    ensures
        stage.persisted().subset_of(stage.history_set()),
        stage.history_set().difference(stage.persisted()).finite(),
        stage.history_set().difference(stage.persisted()).len() <= stage.recorded() % (
        FLUSH_EVERY as nat),
        stage.recorded() % (FLUSH_EVERY as nat) < FLUSH_EVERY,
{
    let log = stage.log@;
    let kept = log.take(log.len() - stage.unsaved);
    let open = log.skip(log.len() - stage.unsaved);
    let missing = stage.history_set().difference(stage.persisted());
    assert forall|x: Seq<char>| stage.persisted().contains(x) implies stage.history_set().contains(
        x,
    ) by {
        if kept.to_set().contains(x) {
            let i = choose|i: int| 0 <= i < kept.len() && kept[i] == x;
            assert(log[i] == x);
        }
    }
    assert forall|x: Seq<char>| missing.contains(x) implies open.to_set().contains(x) by {
        let i = choose|i: int| 0 <= i < log.len() && log[i] == x;
        if i < log.len() - stage.unsaved {
            assert(kept[i] == x);
            assert(kept.to_set().contains(x));
        } else {
            assert(open[i - (log.len() - stage.unsaved)] == x);
        }
    }
    vstd::seq_lib::seq_to_set_is_finite(open);
    open.lemma_cardinality_of_set();
    vstd::set_lib::lemma_len_subset(missing, open.to_set());
}

/// After `K` files were recorded, the history file holds every digest that the
/// history held at the start and the first `K - K % 10` of the recorded
/// digests, and nothing else; the memory holds the start and all `K`. So what
/// the file lacks are among the latest `K % 10` recorded digests.
pub proof fn lemma_crash_loses_only_the_latest(stage: TransformStage)
    requires
        stage.well_formed(),
    ensures
        stage.recorded() % (FLUSH_EVERY as nat) == stage.unsaved(),
        stage.persisted() == stage.starting_set().union(
            stage.recorded_digests().take(
                stage.recorded() - stage.recorded() % (FLUSH_EVERY as nat),
            ).to_set(),
        ),
        stage.history_set() == stage.starting_set().union(stage.recorded_digests().to_set()),
{
}

/// One file of a directory, with all that a run can learn of it.
pub ghost struct FileFacts {
    pub path: Seq<char>,
    pub out_path: Seq<char>,
    /// Whether something stands at `out_path`.
    pub output_exists: bool,
    /// What hashing the file gives; `None` where it fails.
    pub digest: Option<Seq<char>>,
}

/// What hashing reports of a file.
pub open spec fn hashed_fact(file: FileFacts) -> HashedFileView {
    HashedFileView { path: file.path, out_path: file.out_path, hash: file.digest }
}

/// Every hashing result of the run belongs to a file whose output was missing.
pub open spec fn results_stem_from(hashed: Seq<HashedFileView>, files: Seq<FileFacts>) -> bool {
    forall|k: int|
        0 <= k < hashed.len() ==> exists|i: int|
            0 <= i < files.len() && !files[i].output_exists && #[trigger] hashed_fact(files[i])
                == #[trigger] hashed[k]
}

/// Every file whose output was missing has its hashing result in the run.
pub open spec fn results_cover(hashed: Seq<HashedFileView>, files: Seq<FileFacts>) -> bool {
    forall|i: int|
        0 <= i < files.len() && !files[i].output_exists ==> exists|k: int|
            0 <= k < hashed.len() && #[trigger] hashed[k] == #[trigger] hashed_fact(files[i])
}

/// A file is already handled when its output exists, or its digest is in the
/// history or in the cache snapshot.
pub open spec fn is_handled(file: FileFacts, history: Set<Seq<char>>, cached: Set<Seq<char>>) -> bool {
    file.output_exists || (file.digest matches Some(h) && is_known(h, history, cached))
}

/// `item` belongs to a file of the directory that is not handled yet and could
/// be hashed.
pub open spec fn belongs_to_unhandled(
    item: WorkItemView,
    files: Seq<FileFacts>,
    history: Set<Seq<char>>,
    cached: Set<Seq<char>>,
) -> bool {
    exists|i: int|
        0 <= i < files.len() && !is_handled(#[trigger] files[i], history, cached)
            && files[i].digest is Some && as_item(hashed_fact(files[i])) == item
}

/// The queue of a run holds the files that are not handled yet and could be
/// hashed, and nothing else: every such file has its item in the queue, and
/// every item of the queue belongs to such a file.
pub proof fn lemma_queue_is_the_unhandled(
    files: Seq<FileFacts>,
    hashed: Seq<HashedFileView>,
    history: Set<Seq<char>>,
    cached: Set<Seq<char>>,
)
    requires
        results_cover(hashed, files),
        results_stem_from(hashed, files),
    ensures
        forall|i: int|
            0 <= i < files.len() && !is_handled(#[trigger] files[i], history, cached)
                && files[i].digest is Some ==> queue_of(hashed, history, cached).contains(
                as_item(hashed_fact(files[i])),
            ),
        forall|k: int|
            0 <= k < queue_of(hashed, history, cached).len() ==> belongs_to_unhandled(
                #[trigger] queue_of(hashed, history, cached)[k],
                files,
                history,
                cached,
            ),
{
    let unseen = |f: HashedFileView| is_unseen(f, history, cached);
    let kept = hashed.filter(unseen);
    let queue = queue_of(hashed, history, cached);
    assert forall|i: int|
        0 <= i < files.len() && !is_handled(#[trigger] files[i], history, cached)
            && files[i].digest is Some implies queue.contains(as_item(hashed_fact(files[i]))) by {
        let k = choose|k: int|
            0 <= k < hashed.len() && #[trigger] hashed[k] == hashed_fact(files[i]);
        hashed.lemma_filter_contains(unseen, k);
        let j = choose|j: int| 0 <= j < kept.len() && kept[j] == hashed[k];
        assert(queue[j] == as_item(kept[j]));
    }
    assert forall|k: int| 0 <= k < queue.len() implies belongs_to_unhandled(
        #[trigger] queue[k],
        files,
        history,
        cached,
    ) by {
        hashed.lemma_filter_pred(unseen, k);
        hashed.lemma_filter_contains_rev(unseen, kept[k]);
        let m = choose|m: int| 0 <= m < hashed.len() && hashed[m] == kept[k];
        let i = choose|i: int|
            0 <= i < files.len() && !files[i].output_exists && #[trigger] hashed_fact(files[i])
                == hashed[m];
        assert(!is_handled(files[i], history, cached));
        assert(as_item(hashed_fact(files[i])) == queue[k]);
    }
}

/// The history after every file of `queue` has been saved.
pub open spec fn history_after_saving(history: Set<Seq<char>>, queue: Seq<WorkItemView>) -> Set<
    Seq<char>,
>
    decreases queue.len(),
{
    if queue.len() == 0 {
        history
    } else {
        history_after(
            history_after_saving(history, queue.drop_last()),
            queue.last().hash,
            ItemOutcome::Saved,
        )
    }
}

/// Some file of `queue` has its result at `out_path`.
pub open spec fn writes_to(queue: Seq<WorkItemView>, out_path: Seq<char>) -> bool {
    exists|k: int| 0 <= k < queue.len() && (#[trigger] queue[k]).out_path == out_path
}

/// The directory after every file of `queue` has been saved: the outputs of the
/// queue are there, nothing else has changed.
pub open spec fn files_after_saving(files: Seq<FileFacts>, queue: Seq<WorkItemView>) -> Seq<
    FileFacts,
> {
    Seq::new(
        files.len(),
        |i: int|
            FileFacts {
                path: files[i].path,
                out_path: files[i].out_path,
                output_exists: files[i].output_exists || writes_to(queue, files[i].out_path),
                digest: files[i].digest,
            },
    )
}

/// Saving files only ever adds to the history.
pub proof fn lemma_saving_keeps_history(history: Set<Seq<char>>, queue: Seq<WorkItemView>)
    ensures
        history.subset_of(history_after_saving(history, queue)),
    decreases queue.len(),
{
    if queue.len() > 0 {
        lemma_saving_keeps_history(history, queue.drop_last());
    }
}

/// A run over a directory that has not changed since a run in which every
/// queued file was saved queues nothing: it transforms no file and adds nothing
/// to the history. `hashed` and `hashed_again` are the hashing results of the
/// first and the second run, in any order; the cache snapshot of the second run
/// holds at least what that of the first held.
pub proof fn lemma_second_run_queues_nothing(
    files: Seq<FileFacts>,
    hashed: Seq<HashedFileView>,
    history: Set<Seq<char>>,
    cached: Set<Seq<char>>,
    hashed_again: Seq<HashedFileView>,
    cached_again: Set<Seq<char>>,
)
    requires
        results_cover(hashed, files),
        results_stem_from(
            hashed_again,
            files_after_saving(files, queue_of(hashed, history, cached)),
        ),
        cached.subset_of(cached_again),
    ensures
        queue_of(
            hashed_again,
            history_after_saving(history, queue_of(hashed, history, cached)),
            cached_again,
        ) == Seq::<WorkItemView>::empty(),
        history_after_saving(
            history_after_saving(history, queue_of(hashed, history, cached)),
            queue_of(
                hashed_again,
                history_after_saving(history, queue_of(hashed, history, cached)),
                cached_again,
            ),
        ) == history_after_saving(history, queue_of(hashed, history, cached)),
{
    let queue = queue_of(hashed, history, cached);
    let later = files_after_saving(files, queue);
    let history_again = history_after_saving(history, queue);
    let unseen = |f: HashedFileView| is_unseen(f, history, cached);
    let unseen_again = |f: HashedFileView| is_unseen(f, history_again, cached_again);
    lemma_saving_keeps_history(history, queue);
    assert forall|k: int| 0 <= k < hashed_again.len() implies !unseen_again(
        #[trigger] hashed_again[k],
    ) by {
        let i = choose|i: int|
            0 <= i < later.len() && !later[i].output_exists && #[trigger] hashed_fact(later[i])
                == hashed_again[k];
        assert(hashed_fact(later[i]) == hashed_fact(files[i]));
        assert(!files[i].output_exists);
        let k1 = choose|k1: int|
            0 <= k1 < hashed.len() && #[trigger] hashed[k1] == hashed_fact(files[i]);
        if unseen(hashed[k1]) {
            hashed.lemma_filter_contains(unseen, k1);
            let kept = hashed.filter(unseen);
            let j = choose|j: int| 0 <= j < kept.len() && kept[j] == hashed[k1];
            assert(queue[j] == as_item(kept[j]));
            assert(queue[j].out_path == files[i].out_path);
            assert(writes_to(queue, files[i].out_path));
            assert(false);
        }
    }
    hashed_again.lemma_all_neg_filter_empty(unseen_again);
    assert(queue_of(hashed_again, history_again, cached_again) =~= Seq::<WorkItemView>::empty());
}

} // verus!
