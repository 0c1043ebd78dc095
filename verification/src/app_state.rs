//! Application state shared by the user interfaces: settings, list entries,
//! confirmation and progress records, the commands sent to the device task,
//! and the storage status shown to the user.
use vstd::prelude::*;
use std::path::PathBuf;
use crate::rio_file::RioFile;
use crate::rio_mem::RioMem;
use crate::upload::UploadTextOptions;
use crate::chars::white_space;
use crate::textops::{trim, trim_chars};
use crate::kana::string_views;
use crate::numfmt::{fixed_point, push_fixed_point};
use crate::strings::{str_chars, string_from_chars, push_str, push_decimal, dec_digits};

verus! {

/// Settings kept across runs.
#[derive(Debug, Clone)]
pub struct AppSettings {
    /// Appearance: 0 modern, 1 classic.
    pub appearance: u8,
    /// Convert titles to slugs on upload.
    pub upload_apply_slug: bool,
    /// Remove noise from titles on upload.
    pub upload_apply_strip: bool,
    /// Remove bracketed asides.
    pub strip_parentheses: bool,
    /// Remove quoted asides.
    pub strip_quotes: bool,
    /// Remove quality and source tags.
    pub strip_quality_tags: bool,
    /// Further stop words, one per line.
    pub custom_stop_words: String,
}

impl Default for AppSettings {
    fn default() -> (s: Self)
        ensures
            s.appearance == 0,
            !s.upload_apply_slug,
            !s.upload_apply_strip,
            s.strip_parentheses,
            s.strip_quotes,
            s.strip_quality_tags,
            s.custom_stop_words@.len() == 0,
    {
        AppSettings {
            appearance: 0,
            upload_apply_slug: false,
            upload_apply_strip: false,
            strip_parentheses: true,
            strip_quotes: true,
            strip_quality_tags: true,
            custom_stop_words: String::new(),
        }
    }
}

/// The position of the first line feed in `s`, if any.
pub open spec fn first_newline(s: Seq<char>) -> Option<int>
    decreases s.len(),
{
    if s.len() == 0 {
        None
    } else if s[0] == '\n' {
        Some(0)
    } else {
        match first_newline(s.drop_first()) {
            Some(k) => Some(k + 1),
            None => None,
        }
    }
}

/// A line without the carriage return that ends it, if any.
pub open spec fn strip_cr(l: Seq<char>) -> Seq<char> {
    if l.len() > 0 && l.last() == '\r' {
        l.drop_last()
    } else {
        l
    }
}

/// The lines of `s` as `str::lines` gives them: split at each line feed, a
/// carriage return before it dropped, no empty line after a final line feed.
pub open spec fn text_lines(s: Seq<char>) -> Seq<Seq<char>>
    decreases s.len(),
{
    match first_newline(s) {
        Some(k) => if 0 <= k < s.len() {
            seq![strip_cr(s.take(k))] + text_lines(s.skip(k + 1))
        } else {
            Seq::empty()
        },
        None => if s.len() > 0 {
            seq![s]
        } else {
            Seq::empty()
        },
    }
}

/// The trimmed lines that are not empty, in order.
pub open spec fn nonempty_trimmed(ls: Seq<Seq<char>>) -> Seq<Seq<char>>
    decreases ls.len(),
{
    if ls.len() == 0 {
        Seq::empty()
    } else {
        let t = trim(ls[0]);
        if t.len() > 0 {
            seq![t] + nonempty_trimmed(ls.drop_first())
        } else {
            nonempty_trimmed(ls.drop_first())
        }
    }
}

proof fn lemma_first_newline(s: Seq<char>)
    ensures
        match first_newline(s) {
            Some(k) => 0 <= k < s.len() && s[k] == '\n' && forall|j: int| 0 <= j < k ==> s[j] != '\n',
            None => forall|j: int| 0 <= j < s.len() ==> s[j] != '\n',
        },
    decreases s.len(),
{
    if s.len() > 0 && s[0] != '\n' {
        lemma_first_newline(s.drop_first());
        match first_newline(s.drop_first()) {
            Some(k) => {
                assert forall|j: int| 0 <= j < k + 1 implies s[j] != '\n' by {
                    if j > 0 {
                        assert(s[j] == s.drop_first()[j - 1]);
                    }
                }
            },
            None => {
                assert forall|j: int| 0 <= j < s.len() implies s[j] != '\n' by {
                    if j > 0 {
                        assert(s[j] == s.drop_first()[j - 1]);
                    }
                }
            },
        }
    }
}

proof fn lemma_first_newline_at(s: Seq<char>, k: int)
    requires
        0 <= k < s.len(),
        s[k] == '\n',
        forall|j: int| 0 <= j < k ==> s[j] != '\n',
    ensures
        first_newline(s) == Some(k),
    decreases k,
{
    if k > 0 {
        lemma_first_newline_at(s.drop_first(), k - 1);
    }
}

proof fn lemma_no_newline(s: Seq<char>)
    requires
        forall|j: int| 0 <= j < s.len() ==> s[j] != '\n',
    ensures
        first_newline(s) is None,
    decreases s.len(),
{
    if s.len() > 0 {
        lemma_no_newline(s.drop_first());
    }
}

impl AppSettings {
    /// The custom stop words: one per line, trimmed, empty lines left out.
    pub fn custom_words_vec(&self) -> (r: Vec<String>)
        ensures
            string_views(r@) == nonempty_trimmed(text_lines(self.custom_stop_words@)),
    {
        let cs = str_chars(self.custom_stop_words.as_str());
        let mut r: Vec<String> = Vec::new();
        let mut start: usize = 0;
        let mut i: usize = 0;
        let ghost whole = cs@;
        assert(whole.skip(0) =~= whole);
        while i < cs.len()
            invariant
                cs@ == whole,
                whole == self.custom_stop_words@,
                start <= i <= whole.len(),
                forall|j: int| start <= j < i ==> whole[j] != '\n',
                nonempty_trimmed(text_lines(whole)) == string_views(r@) + nonempty_trimmed(text_lines(whole.skip(start as int))),
            decreases whole.len() - i,
        {
            if cs[i] == '\n' {
                let ghost rest = whole.skip(start as int);
                proof {
                    assert(rest[i - start] == '\n');
                    assert forall|j: int| 0 <= j < i - start implies rest[j] != '\n' by {
                        assert(rest[j] == whole[start + j]);
                    }
                    lemma_first_newline_at(rest, i - start);
                    assert(rest.skip(i - start + 1) =~= whole.skip(i + 1));
                    assert(rest.take(i - start) =~= whole.subrange(start as int, i as int));
                }
                let end: usize = if i > start && cs[i - 1] == '\r' { i - 1 } else { i };
                let line = crate::strings::copy_range(cs.as_slice(), start, end);
                assert(line@ =~= strip_cr(rest.take(i - start)));
                let t = trim_chars(line.as_slice());
                let ghost before = string_views(r@);
                let ghost ls = text_lines(rest);
                proof {
                    assert(ls == seq![strip_cr(rest.take(i - start))] + text_lines(rest.skip(i - start + 1)));
                    assert(ls[0] == line@);
                    assert(ls.drop_first() =~= text_lines(whole.skip(i + 1)));
                }
                if t.len() > 0 {
                    r.push(string_from_chars(t.as_slice()));
                    assert(string_views(r@) =~= before.push(t@));
                    assert(before + (seq![t@] + nonempty_trimmed(text_lines(whole.skip(i + 1))))
                        =~= string_views(r@) + nonempty_trimmed(text_lines(whole.skip(i + 1))));
                } else {
                }
                start = i + 1;
            }
            i = i + 1;
        }
        let ghost rest = whole.skip(start as int);
        proof {
            assert forall|j: int| 0 <= j < rest.len() implies rest[j] != '\n' by {
                assert(rest[j] == whole[start + j]);
            }
            lemma_no_newline(rest);
        }
        if start < cs.len() {
            let line = crate::strings::copy_range(cs.as_slice(), start, cs.len());
            assert(line@ =~= rest);
            let t = trim_chars(line.as_slice());
            let ghost before = string_views(r@);
            if t.len() > 0 {
                r.push(string_from_chars(t.as_slice()));
                assert(string_views(r@) =~= before.push(t@));
            }
            assert(text_lines(rest) == seq![rest]);
            assert(seq![rest][0] == rest);
            assert(seq![rest].drop_first() =~= Seq::<Seq<char>>::empty());
            assert(nonempty_trimmed(Seq::<Seq<char>>::empty()) == Seq::<Seq<char>>::empty());
            assert(string_views(r@) =~= before + nonempty_trimmed(seq![rest]));
        } else {
            assert(rest.len() == 0);
            assert(string_views(r@) =~= string_views(r@) + nonempty_trimmed(text_lines(rest)));
        }
        r
    }
}

/// Memory unit: internal flash.
pub const MEM_UNIT_INTERNAL: u8 = 0;
/// Memory unit: SD card.
pub const MEM_UNIT_SD: u8 = 1;

/// A song or playlist in the merged list of both memory units.
#[derive(Debug, Clone)]
pub struct SongEntry {
    /// The file's record.
    pub file: RioFile,
    /// The memory unit it is on.
    pub mem_unit: u8,
}

/// An action that asks for confirmation.
#[derive(Debug, Clone)]
pub enum ConfirmAction {
    /// Delete one song.
    DeleteSong { file_no: u32, mem_unit: u8 },
    /// Delete several songs.
    DeleteSongsBatch { file_nos: Vec<u32>, mem_unit: u8 },
    /// Delete a playlist.
    DeletePlaylist { file_no: u32, mem_unit: u8 },
    /// Format a memory unit.
    Format { mem_unit: u8 },
}

/// A confirmation dialog.
#[derive(Debug, Clone)]
pub struct ConfirmDialog {
    /// What is confirmed.
    pub action: ConfirmAction,
    /// The question shown.
    pub message: String,
}

/// The kind of operation in progress.
#[derive(Debug, Clone, Copy, PartialEq, Eq, Structural)]
pub enum ProgressKind {
    /// Uploading.
    Upload,
    /// Downloading.
    Download,
    /// Deleting.
    Delete,
    /// Loading a list.
    Listing,
}

/// Progress of an operation.
#[derive(Debug, Clone)]
pub struct ProgressInfo {
    /// The operation.
    pub kind: ProgressKind,
    /// Bytes done.
    pub current: u64,
    /// Bytes in all.
    pub total: u64,
}

/// The status of a file in the upload dialog.
#[derive(Debug, Clone, Copy, PartialEq, Eq, Structural)]
pub enum UploadFileStatus {
    /// Waiting.
    Pending,
    /// Being sent.
    Uploading,
    /// Sent.
    Done,
    /// Failed.
    Failed,
}

/// A file in the upload dialog.
#[derive(Debug, Clone)]
pub struct UploadFileEntry {
    /// File name (without directories).
    pub name: String,
    /// Bytes sent.
    pub transferred: u64,
    /// Bytes in all.
    pub total: u64,
    /// Status.
    pub status: UploadFileStatus,
}

/// A byte count for people: "{n} B", else KiB, MiB with one decimal, or GiB
/// with two.
pub open spec fn spec_format_size_bytes(n: nat) -> Seq<char> {
    if n >= 1024 * 1024 * 1024 {
        fixed_point(n, 1024 * 1024 * 1024, 2) + " GB"@
    } else if n >= 1024 * 1024 {
        fixed_point(n, 1024 * 1024, 1) + " MB"@
    } else if n >= 1024 {
        fixed_point(n, 1024, 1) + " KB"@
    } else {
        dec_digits(n) + " B"@
    }
}

fn push_size_bytes(out: &mut Vec<char>, bytes: u64)
    ensures
        final(out)@ == old(out)@ + spec_format_size_bytes(bytes as nat),
{
    let ghost o0 = out@;
    if bytes >= 1024 * 1024 * 1024 {
        push_fixed_point(out, bytes, 1024 * 1024 * 1024, 2);
        push_str(out, " GB");
    } else if bytes >= 1024 * 1024 {
        push_fixed_point(out, bytes, 1024 * 1024, 1);
        push_str(out, " MB");
    } else if bytes >= 1024 {
        push_fixed_point(out, bytes, 1024, 1);
        push_str(out, " KB");
    } else {
        push_decimal(out, bytes);
        push_str(out, " B");
    }
    assert(out@ =~= o0 + spec_format_size_bytes(bytes as nat));
}

/// Formats a byte count: "{n} B", "{x.y} KB", "{x.y} MB" or "{x.yz} GB".
pub fn format_bytes(bytes: u64) -> (s: String)
    ensures
        s@ == spec_format_size_bytes(bytes as nat),
{
    let mut out: Vec<char> = Vec::new();
    push_size_bytes(&mut out, bytes);
    string_from_chars(out.as_slice())
}

/// The verb of an operation in progress.
pub open spec fn kind_word(k: ProgressKind) -> Seq<char> {
    match k {
        ProgressKind::Upload => "上传"@,
        ProgressKind::Download => "下载"@,
        ProgressKind::Delete => "删除"@,
        ProgressKind::Listing => "加载"@,
    }
}

impl ProgressInfo {
    /// "{verb}中… {done} / {total}" with both sizes formatted.
    pub fn label(&self) -> (s: String)
        ensures
            s@ == kind_word(self.kind) + "中… "@ + spec_format_size_bytes(self.current as nat) + " / "@
                + spec_format_size_bytes(self.total as nat),
    {
        let mut out: Vec<char> = Vec::new();
        match self.kind {
            ProgressKind::Upload => push_str(&mut out, "上传"),
            ProgressKind::Download => push_str(&mut out, "下载"),
            ProgressKind::Delete => push_str(&mut out, "删除"),
            ProgressKind::Listing => push_str(&mut out, "加载"),
        }
        push_str(&mut out, "中… ");
        push_size_bytes(&mut out, self.current);
        push_str(&mut out, " / ");
        push_size_bytes(&mut out, self.total);
        string_from_chars(out.as_slice())
    }
}

/// Files of the upload dialog with the given status.
pub open spec fn count_status(files: Seq<UploadFileEntry>, st: UploadFileStatus) -> nat
    decreases files.len(),
{
    if files.len() == 0 {
        0
    } else {
        count_status(files.drop_last(), st) + if files.last().status == st { 1nat } else { 0nat }
    }
}

/// The number of files of the upload dialog with status `st`.
pub fn count_with_status(files: &[UploadFileEntry], st: UploadFileStatus) -> (n: usize)
    ensures
        n == count_status(files@, st),
{
    let mut n: usize = 0;
    let mut i: usize = 0;
    while i < files.len()
        invariant
            i <= files@.len(),
            n == count_status(files@.take(i as int), st),
            n <= i,
        decreases files@.len() - i,
    {
        assert(files@.take(i + 1).drop_last() =~= files@.take(i as int));
        if files[i].status == st {
            n = n + 1;
        }
        i = i + 1;
    }
    assert(files@.take(files@.len() as int) =~= files@);
    n
}

/// Whether every file of the upload dialog has finished (sent or failed);
/// false for an empty dialog.
pub fn all_uploads_finished(files: &[UploadFileEntry]) -> (b: bool)
    ensures
        b == (files@.len() > 0 && forall|k: int| 0 <= k < files@.len()
            ==> (#[trigger] files@[k]).status == UploadFileStatus::Done || files@[k].status == UploadFileStatus::Failed),
{
    if files.len() == 0 {
        return false;
    }
    let mut i: usize = 0;
    while i < files.len()
        invariant
            i <= files@.len(),
            forall|k: int| 0 <= k < i ==> (#[trigger] files@[k]).status == UploadFileStatus::Done || files@[k].status == UploadFileStatus::Failed,
        decreases files@.len() - i,
    {
        if !(files[i].status == UploadFileStatus::Done || files[i].status == UploadFileStatus::Failed) {
            return false;
        }
        i = i + 1;
    }
    true
}

/// Bytes in all over the files of the upload dialog.
pub open spec fn bytes_total(files: Seq<UploadFileEntry>) -> nat
    decreases files.len(),
{
    if files.len() == 0 {
        0
    } else {
        bytes_total(files.drop_last()) + files.last().total as nat
    }
}

/// Bytes sent over the files of the upload dialog.
pub open spec fn bytes_sent(files: Seq<UploadFileEntry>) -> nat
    decreases files.len(),
{
    if files.len() == 0 {
        0
    } else {
        bytes_sent(files.drop_last()) + files.last().transferred as nat
    }
}

proof fn lemma_prefix_bytes(files: Seq<UploadFileEntry>, i: int)
    requires
        0 <= i <= files.len(),
    ensures
        bytes_total(files.take(i)) <= bytes_total(files),
        bytes_sent(files.take(i)) <= bytes_sent(files),
    decreases files.len(),
{
    if i == files.len() {
        assert(files.take(i) =~= files);
    } else {
        assert(files.take(i) =~= files.drop_last().take(i));
        lemma_prefix_bytes(files.drop_last(), i);
    }
}

/// The total size of the files of the upload dialog.
pub fn total_upload_bytes(files: &[UploadFileEntry]) -> (n: u64)
    requires
        bytes_total(files@) <= u64::MAX,
    ensures
        n == bytes_total(files@),
{
    let mut n: u64 = 0;
    let mut i: usize = 0;
    while i < files.len()
        invariant
            i <= files@.len(),
            bytes_total(files@) <= u64::MAX,
            n == bytes_total(files@.take(i as int)),
        decreases files@.len() - i,
    {
        assert(files@.take(i + 1).drop_last() =~= files@.take(i as int));
        proof {
            lemma_prefix_bytes(files@, i + 1);
        }
        n = n + files[i].total;
        i = i + 1;
    }
    assert(files@.take(files@.len() as int) =~= files@);
    n
}

/// The bytes sent so far over the files of the upload dialog.
pub fn sent_upload_bytes(files: &[UploadFileEntry]) -> (n: u64)
    requires
        bytes_sent(files@) <= u64::MAX,
    ensures
        n == bytes_sent(files@),
{
    let mut n: u64 = 0;
    let mut i: usize = 0;
    while i < files.len()
        invariant
            i <= files@.len(),
            bytes_sent(files@) <= u64::MAX,
            n == bytes_sent(files@.take(i as int)),
        decreases files@.len() - i,
    {
        assert(files@.take(i + 1).drop_last() =~= files@.take(i as int));
        proof {
            lemma_prefix_bytes(files@, i + 1);
        }
        n = n + files[i].transferred;
        i = i + 1;
    }
    assert(files@.take(files@.len() as int) =~= files@);
    n
}

/// The file being sent: the one at `current_index`, if it exists and is
/// being sent.
pub fn current_upload(files: &[UploadFileEntry], current_index: usize) -> (r: Option<usize>)
    ensures
        r == (if current_index < files@.len() && files@[current_index as int].status == UploadFileStatus::Uploading {
            Some(current_index)
        } else {
            None::<usize>
        }),
{
    if current_index < files.len() && files[current_index].status == UploadFileStatus::Uploading {
        Some(current_index)
    } else {
        None
    }
}

/// The files of a new upload dialog: one waiting entry per name, nothing
/// sent yet.
pub fn new_upload_files(names: &[String]) -> (r: Vec<UploadFileEntry>)
    ensures
        r@.len() == names@.len(),
        forall|k: int| 0 <= k < r@.len() ==> {
            &&& (#[trigger] r@[k]).name@ == names@[k]@
            &&& r@[k].transferred == 0
            &&& r@[k].total == 0
            &&& r@[k].status == UploadFileStatus::Pending
        },
{
    let mut r: Vec<UploadFileEntry> = Vec::new();
    let mut i: usize = 0;
    while i < names.len()
        invariant
            i <= names@.len(),
            r@.len() == i,
            forall|k: int| 0 <= k < i ==> {
                &&& (#[trigger] r@[k]).name@ == names@[k]@
                &&& r@[k].transferred == 0
                &&& r@[k].total == 0
                &&& r@[k].status == UploadFileStatus::Pending
            },
        decreases names@.len() - i,
    {
        let name = names[i].clone();
        r.push(UploadFileEntry { name, transferred: 0, total: 0, status: UploadFileStatus::Pending });
        i = i + 1;
    }
    r
}

/// Marks the file at `index` as being sent; out of range, nothing changes.
pub fn upload_started(files: &mut Vec<UploadFileEntry>, index: usize)
    ensures
        index < old(files)@.len() ==> final(files)@ == old(files)@.update(
            index as int,
            UploadFileEntry { status: UploadFileStatus::Uploading, ..old(files)@[index as int] },
        ),
        index >= old(files)@.len() ==> final(files)@ == old(files)@,
{
    if index < files.len() {
        let ghost before = files@;
        let mut f = files.remove(index);
        f.status = UploadFileStatus::Uploading;
        files.insert(index, f);
        assert(files@ =~= before.update(
            index as int,
            UploadFileEntry { status: UploadFileStatus::Uploading, ..before[index as int] },
        ));
    }
}

/// Records the outcome of the file at `index`: sent (and then all of it
/// counts as transferred) or failed; out of range, nothing changes.
pub fn upload_finished(files: &mut Vec<UploadFileEntry>, index: usize, success: bool)
    ensures
        index < old(files)@.len() ==> final(files)@ == old(files)@.update(
            index as int,
            UploadFileEntry {
                status: if success { UploadFileStatus::Done } else { UploadFileStatus::Failed },
                transferred: if success { old(files)@[index as int].total } else { old(files)@[index as int].transferred },
                ..old(files)@[index as int]
            },
        ),
        index >= old(files)@.len() ==> final(files)@ == old(files)@,
{
    if index < files.len() {
        let ghost before = files@;
        let mut f = files.remove(index);
        if success {
            f.status = UploadFileStatus::Done;
            f.transferred = f.total;
        } else {
            f.status = UploadFileStatus::Failed;
        }
        files.insert(index, f);
        assert(files@ =~= before.update(
            index as int,
            UploadFileEntry {
                status: if success { UploadFileStatus::Done } else { UploadFileStatus::Failed },
                transferred: if success { before[index as int].total } else { before[index as int].transferred },
                ..before[index as int]
            },
        ));
    }
}

/// Records the byte progress of the file at `index`; out of range, nothing
/// changes.
pub fn upload_progress(files: &mut Vec<UploadFileEntry>, index: usize, sent: u64, total: u64)
    ensures
        index < old(files)@.len() ==> final(files)@ == old(files)@.update(
            index as int,
            UploadFileEntry { transferred: sent, total, ..old(files)@[index as int] },
        ),
        index >= old(files)@.len() ==> final(files)@ == old(files)@,
{
    if index < files.len() {
        let ghost before = files@;
        let mut f = files.remove(index);
        f.transferred = sent;
        f.total = total;
        files.insert(index, f);
        assert(files@ =~= before.update(index as int, UploadFileEntry { transferred: sent, total, ..before[index as int] }));
    }
}

/// The entries of the other memory units, in order.
pub open spec fn other_units(entries: Seq<SongEntry>, mem_unit: u8) -> Seq<SongEntry>
    decreases entries.len(),
{
    if entries.len() == 0 {
        Seq::empty()
    } else if entries[0].mem_unit == mem_unit {
        other_units(entries.drop_first(), mem_unit)
    } else {
        seq![entries[0]] + other_units(entries.drop_first(), mem_unit)
    }
}

/// The records of a memory unit as list entries.
pub open spec fn tagged(files: Seq<RioFile>, mem_unit: u8) -> Seq<SongEntry> {
    files.map_values(|f: RioFile| SongEntry { file: f, mem_unit })
}

/// A list showing both memory units after one of them was listed anew: the
/// entries of the other units stay, in order, and the new records of
/// `mem_unit` follow.
pub fn merge_listed(entries: Vec<SongEntry>, files: Vec<RioFile>, mem_unit: u8) -> (r: Vec<SongEntry>)
    ensures
        r@ == other_units(entries@, mem_unit) + tagged(files@, mem_unit),
{
    let mut rest = entries;
    let mut kept: Vec<SongEntry> = Vec::new();
    while rest.len() > 0
        invariant
            kept@ + other_units(rest@, mem_unit) == other_units(entries@, mem_unit),
        decreases rest@.len(),
    {
        let ghost before = rest@;
        let e = rest.remove(0);
        assert(rest@ =~= before.drop_first());
        if e.mem_unit != mem_unit {
            let ghost k0 = kept@;
            kept.push(e);
            assert(kept@ + other_units(rest@, mem_unit) =~= k0 + (seq![before[0]] + other_units(rest@, mem_unit)));
        }
    }
    assert(kept@ + other_units(rest@, mem_unit) =~= kept@);
    let ghost base = kept@;
    let mut todo = files;
    let ghost mut done: Seq<RioFile> = Seq::empty();
    while todo.len() > 0
        invariant
            done + todo@ == files@,
            kept@ == base + tagged(done, mem_unit),
        decreases todo@.len(),
    {
        let ghost before = todo@;
        let f = todo.remove(0);
        assert(todo@ =~= before.drop_first());
        kept.push(SongEntry { file: f, mem_unit });
        proof {
            assert(tagged(done.push(before[0]), mem_unit) =~= tagged(done, mem_unit).push(SongEntry { file: before[0], mem_unit }));
            done = done.push(before[0]);
            assert(done + todo@ =~= files@);
        }
    }
    assert(done =~= files@);
    kept
}

/// A command from the user interface to the device task.
#[derive(Debug)]
pub enum Command {
    /// Open the device (a Diamond Rio is looked for).
    OpenDevice,
    /// Open the device with this vendor and product id.
    OpenDeviceForce { vid: u16, pid: u16 },
    /// Close the device.
    CloseDevice,
    /// List the USB devices.
    ScanDevices,
    /// List the songs of a memory unit.
    ListSongs(u8),
    /// List the playlists of a memory unit.
    ListPlaylists(u8),
    /// List the songs of a playlist.
    ListPlaylistSongs { playlist_file_no: u32, mem_unit: u8 },
    /// Upload one MP3 file.
    UploadSong { path: PathBuf, mem_unit: u8, text_opts: UploadTextOptions },
    /// Upload several MP3 files.
    UploadSongBatch { paths: Vec<PathBuf>, mem_unit: u8, text_opts: UploadTextOptions },
    /// Download a song to a local file.
    DownloadSong { file_no: u32, mem_unit: u8, save_path: PathBuf },
    /// Download a song into memory to play it.
    DownloadSongForPlay { file_no: u32, mem_unit: u8 },
    /// Delete a file.
    DeleteSong { file_no: u32, mem_unit: u8 },
    /// Add a song to a playlist.
    AddToPlaylist { song_file_no: u32, song_mem_unit: u8, playlist_file_no: u32, playlist_mem_unit: u8 },
    /// Create an empty playlist.
    CreatePlaylist { name: String, mem_unit: u8 },
    /// Repair a playlist's text encoding.
    RepairPlaylistEncoding { file_no: u32, mem_unit: u8 },
    /// Rename a song.
    RenameSong { file_no: u32, mem_unit: u8, new_title: String },
    /// Convert the titles of these songs to slugs.
    BatchSlugSongs { items: Vec<(u32, u8, String)> },
    /// Remove noise from the titles of these songs.
    BatchStripSongs { items: Vec<(u32, u8, String)>, custom_words: Vec<String> },
    /// Repair a song's text encoding.
    RepairSongEncoding { file_no: u32, mem_unit: u8 },
    /// Repair the text encoding of all songs.
    RepairAllSongsEncoding,
    /// Convert all titles to slugs.
    BatchSlugAllSongs,
    /// Remove noise from all titles.
    BatchStripAllSongs { custom_words: Vec<String> },
    /// Read the storage status.
    GetStorageStatus,
    /// End the device task.
    Quit,
}

/// Storage of one memory unit, as shown to the user.
#[derive(Debug, Clone)]
pub struct StorageUnit {
    /// Memory unit number.
    pub mem_unit: u8,
    /// Whether the unit is there.
    pub present: bool,
    /// Name.
    pub name: String,
    /// Model.
    pub model: String,
    /// Capacity in bytes.
    pub size: u64,
    /// Bytes used.
    pub used: u64,
    /// Bytes free.
    pub free: u64,
}

/// Storage of both memory units.
#[derive(Debug, Clone)]
pub struct StorageStatus {
    /// Internal memory.
    pub internal: StorageUnit,
    /// SD card.
    pub sd_card: StorageUnit,
}

/// The storage shown for a memory unit record.
pub fn convert_mem(m: &RioMem, mem_unit: u8) -> (u: StorageUnit)
    ensures
        u.mem_unit == mem_unit,
        u.present == (m.size > 0),
        u.name@ == m.name@,
        u.model@ == m.model@,
        u.size == m.size,
        u.used == m.used,
        u.free == m.free,
{
    StorageUnit {
        mem_unit,
        present: m.is_present(),
        name: m.name.clone(),
        model: m.model.clone(),
        size: m.size as u64,
        used: m.used as u64,
        free: m.free as u64,
    }
}

} // verus!
