//! Renaming songs on the device: previews of new titles, and the records of
//! a batch of renames.
use vstd::prelude::*;
use crate::strings::{str_chars, chars_eq, push_str, push_decimal, push_chars, dec_digits, string_from_chars};
use crate::slug::{SlugOptions, to_slug, spec_to_slug};
use crate::strip::{StripOptions, strip_noise, spec_strip_noise};
use crate::upload::{default_slug, copy_strings};
use crate::kana::string_views;
use crate::error::{CyrioError, error_message};
use crate::rio_file::{parse_rio_file, spec_parse_rio_file};

verus! {

/// The outcome of renaming one song of a batch.
#[derive(Debug, Clone)]
pub struct RenameResult {
    /// File number.
    pub file_no: u32,
    /// Memory unit of the file.
    pub mem_unit: u8,
    /// Whether the rename succeeded (or was not needed).
    pub success: bool,
    /// The title before.
    pub original: String,
    /// The new title.
    pub new_title: String,
    /// Why it failed, or why it was skipped.
    pub error: String,
}

/// A new title computed without renaming anything.
#[derive(Debug, Clone)]
pub struct PreviewResult {
    /// File number.
    pub file_no: u32,
    /// Memory unit of the file.
    pub mem_unit: u8,
    /// The title now.
    pub original: String,
    /// The title it would get.
    pub new_title: String,
    /// Whether the title would change.
    pub changed: bool,
}

/// Progress of a batch operation.
#[derive(Debug, Clone, Copy)]
pub struct BatchProgress {
    /// Index of the file being processed (from 0).
    pub current: usize,
    /// Number of files.
    pub total: usize,
    /// Title of the file being processed.
    pub current_title: &'static str,
}

/// Whether two strings hold the same characters.
fn same_text(a: &str, b: &str) -> (r: bool)
    ensures
        r == (a@ == b@),
{
    let ac = str_chars(a);
    let bc = str_chars(b);
    chars_eq(ac.as_slice(), bc.as_slice())
}

/// Whether `p` previews `item` becoming `new_title`.
pub open spec fn previews(p: PreviewResult, item: (u32, u8, String), new_title: Seq<char>) -> bool {
    &&& p.file_no == item.0
    &&& p.mem_unit == item.1
    &&& p.original@ == item.2@
    &&& p.new_title@ == new_title
    &&& p.changed == (new_title != item.2@)
}

/// The slug (default options) each title would get; nothing is renamed.
pub fn preview_slug(items: &[(u32, u8, String)]) -> (r: Vec<PreviewResult>)
    ensures
        r@.len() == items@.len(),
        forall|i: int| 0 <= i < items@.len() ==> previews(#[trigger] r@[i], items@[i], spec_to_slug(items@[i].2@, default_slug())),
{
    let opts = SlugOptions::default();
    let mut r: Vec<PreviewResult> = Vec::new();
    let mut k: usize = 0;
    while k < items.len()
        invariant
            k <= items@.len(),
            r@.len() == k,
            opts == default_slug(),
            forall|i: int| 0 <= i < k ==> previews(#[trigger] r@[i], items@[i], spec_to_slug(items@[i].2@, default_slug())),
        decreases items@.len() - k,
    {
        let item = &items[k];
        let new_title = to_slug(item.2.as_str(), &opts);
        let changed = !same_text(new_title.as_str(), item.2.as_str());
        r.push(PreviewResult {
            file_no: item.0,
            mem_unit: item.1,
            original: item.2.clone(),
            new_title,
            changed,
        });
        k = k + 1;
    }
    r
}

/// The title each item would get with noise removed (default options plus
/// `custom_words`); nothing is renamed.
pub fn preview_strip(items: &[(u32, u8, String)], custom_words: Vec<String>) -> (r: Vec<PreviewResult>)
    ensures
        r@.len() == items@.len(),
        forall|i: int| 0 <= i < items@.len() ==> previews(
            #[trigger] r@[i],
            items@[i],
            spec_strip_noise(items@[i].2@, true, true, true, string_views(custom_words@)).0,
        ),
{
    let ghost words = string_views(custom_words@);
    let opts = StripOptions {
        custom_stop_words: custom_words,
        strip_parentheses: true,
        strip_quotes: true,
        strip_quality_tags: true,
    };
    let mut r: Vec<PreviewResult> = Vec::new();
    let mut k: usize = 0;
    while k < items.len()
        invariant
            k <= items@.len(),
            r@.len() == k,
            string_views(opts.custom_stop_words@) == words,
            opts.strip_parentheses && opts.strip_quotes && opts.strip_quality_tags,
            forall|i: int| 0 <= i < k ==> previews(
                #[trigger] r@[i],
                items@[i],
                spec_strip_noise(items@[i].2@, true, true, true, words).0,
            ),
        decreases items@.len() - k,
    {
        let item = &items[k];
        let stripped = strip_noise(item.2.as_str(), &opts);
        let changed = !same_text(stripped.cleaned.as_str(), item.2.as_str());
        r.push(PreviewResult {
            file_no: item.0,
            mem_unit: item.1,
            original: item.2.clone(),
            new_title: stripped.cleaned,
            changed,
        });
        k = k + 1;
    }
    r
}

/// The record of a song of a batch that needed no rename: a success whose
/// message says why it was skipped.
pub fn skipped_rename(file_no: u32, mem_unit: u8, title: String, reason: &str) -> (r: RenameResult)
    ensures
        r.file_no == file_no,
        r.mem_unit == mem_unit,
        r.success,
        r.original@ == title@,
        r.new_title@ == title@,
        r.error@ == reason@,
{
    RenameResult {
        file_no,
        mem_unit,
        success: true,
        original: title.clone(),
        new_title: title,
        error: reason.to_owned(),
    }
}

/// The record of a rename that was tried, given how it ended.
pub fn finished_rename(
    file_no: u32,
    mem_unit: u8,
    original: String,
    new_title: String,
    outcome: Result<(), CyrioError>,
) -> (r: RenameResult)
    ensures
        r.file_no == file_no,
        r.mem_unit == mem_unit,
        r.original@ == original@,
        r.new_title@ == new_title@,
        match outcome {
            Ok(_) => r.success && r.error@.len() == 0,
            Err(e) => !r.success && r.error@ == error_message(e),
        },
{
    match outcome {
        Ok(()) => RenameResult { file_no, mem_unit, success: true, original, new_title, error: String::new() },
        Err(e) => RenameResult { file_no, mem_unit, success: false, original, new_title, error: e.to_string() },
    }
}

/// Whether a rewritten header read back from the device shows the rename:
/// its title is `new_title` and bit 0 of its flags is clear (a silently
/// ignored overwrite leaves both as they were). Fails as the header parse does.
pub fn title_update_verified(buf: &[u8], new_title: &str) -> (r: Result<bool, CyrioError>)
    ensures
        match r {
            Ok(b) => buf@.len() >= 2048 && b == (spec_parse_rio_file(buf@).title == new_title@
                && spec_parse_rio_file(buf@).bits % 2 == 0),
            Err(_) => buf@.len() < 2048,
        },
{
    let file = parse_rio_file(buf)?;
    let title_ok = same_text(file.title.as_str(), new_title);
    let bit0_cleared = file.bits % 2 == 0;
    Ok(title_ok && bit0_cleared)
}

/// The record standing for a memory unit that could not be listed: a
/// failure with no file, whose message names the unit and the error.
pub fn list_failed_rename(mem_unit: u8, e: CyrioError) -> (r: RenameResult)
    ensures
        r.file_no == 0,
        r.mem_unit == mem_unit,
        !r.success,
        r.original@.len() == 0,
        r.new_title@.len() == 0,
        r.error@ == "列出 mem_unit "@ + dec_digits(mem_unit as nat) + " 失败: "@ + error_message(e),
{
    let mut out: Vec<char> = Vec::new();
    push_str(&mut out, "列出 mem_unit ");
    push_decimal(&mut out, mem_unit as u64);
    push_str(&mut out, " 失败: ");
    let m = e.to_string();
    let mc = str_chars(m.as_str());
    push_chars(&mut out, mc.as_slice());
    RenameResult {
        file_no: 0,
        mem_unit,
        success: false,
        original: String::new(),
        new_title: String::new(),
        error: string_from_chars(out.as_slice()),
    }
}

} // verus!
