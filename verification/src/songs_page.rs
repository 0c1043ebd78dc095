//! The song list page: which songs are selected, which page is shown, and
//! what a click, a double click or a toolbar button asks of the rest of the
//! front end. The page draws; this module decides.
use vstd::prelude::*;
use crate::app_state::{Command, ConfirmAction, ConfirmDialog, SongEntry};
use crate::display::{display_title, shown_title};
use crate::strings::{push_str, push_decimal, string_from_chars, dec_digits};

verus! {

/// The page's selection and position.
#[derive(Debug)]
pub struct SongsView {
    /// File numbers of the selected songs, each once, in the order selected.
    pub selected: Vec<u32>,
    /// Index (in the shown list) of the row clicked last.
    pub last_clicked: Option<usize>,
    /// The page asked for (clamped to the pages there are when shown).
    pub current_page: usize,
    /// The song playing.
    pub playing: Option<u32>,
}

/// What the user did on the page.
#[derive(Debug)]
pub enum SongsEvent {
    /// A click on the row at `index` of the shown list, with or without Shift.
    RowClicked { index: usize, shift: bool },
    /// A double click on the row at `index` of the shown list.
    RowDoubleClicked { index: usize },
    /// Ctrl+A, or the "select all" button.
    SelectAll,
    /// The "clear" button.
    ClearSelection,
    /// The previous-page button.
    PrevPage,
    /// The next-page button.
    NextPage,
    /// The batch delete button.
    DeleteSelected,
    /// The batch download button (once a folder was picked).
    DownloadSelected,
    /// The add-to-playlist button.
    AddSelectedToPlaylist,
    /// Pinyin titles for the selected songs.
    SlugSelected,
    /// Noise words removed from the selected songs' titles.
    StripSelected { custom_words: Vec<String> },
}

/// What the page asks for.
#[derive(Debug)]
pub enum SongsAction {
    /// Stop the audio.
    StopAudio,
    /// Show the loading state and download this song to play it.
    Play { file_no: u32, mem_unit: u8 },
    /// Ask the user to confirm.
    Confirm(ConfirmDialog),
    /// Send this command to the device task.
    Send(Command),
    /// Download each of these songs (file number, memory unit) into the
    /// picked folder.
    DownloadEach(Vec<(u32, u8)>),
    /// Open the add-to-playlist dialog for this song.
    ChoosePlaylistFor(u32),
}

/// `sel` with `x` added at the end, unless it is there already.
pub open spec fn with_added(sel: Seq<u32>, x: u32) -> Seq<u32> {
    if sel.contains(x) { sel } else { sel.push(x) }
}

/// `sel` with each of `xs` added in turn.
pub open spec fn add_all(sel: Seq<u32>, xs: Seq<u32>) -> Seq<u32>
    decreases xs.len(),
{
    if xs.len() == 0 { sel } else { with_added(add_all(sel, xs.drop_last()), xs.last()) }
}

/// `sel` without `x`.
pub open spec fn without(sel: Seq<u32>, x: u32) -> Seq<u32>
    decreases sel.len(),
{
    if sel.len() == 0 {
        sel
    } else if sel.last() == x {
        without(sel.drop_last(), x)
    } else {
        without(sel.drop_last(), x).push(sel.last())
    }
}

/// The file numbers of `es`, in order.
pub open spec fn file_nos(es: Seq<SongEntry>) -> Seq<u32> {
    Seq::new(es.len(), |i: int| es[i].file.file_no)
}

/// Index of the first song from `i` on with file number `n`.
pub open spec fn first_song(songs: Seq<SongEntry>, n: u32, i: int) -> Option<int>
    decreases songs.len() - i,
{
    if i < 0 || i >= songs.len() {
        None
    } else if songs[i].file.file_no == n {
        Some(i)
    } else {
        first_song(songs, n, i + 1)
    }
}

/// The selected songs found in `songs`, as (file number, memory unit), in
/// the order selected.
pub open spec fn selected_pairs(songs: Seq<SongEntry>, sel: Seq<u32>) -> Seq<(u32, u8)>
    decreases sel.len(),
{
    if sel.len() == 0 {
        Seq::empty()
    } else {
        let r = selected_pairs(songs, sel.drop_last());
        match first_song(songs, sel.last(), 0) {
            Some(k) => r.push((sel.last(), songs[k].mem_unit)),
            None => r,
        }
    }
}

/// The selected songs found in `songs`, as (file number, memory unit,
/// shown title), in the order selected.
pub open spec fn selected_items(songs: Seq<SongEntry>, sel: Seq<u32>) -> Seq<(u32, u8, Seq<char>)>
    decreases sel.len(),
{
    if sel.len() == 0 {
        Seq::empty()
    } else {
        let r = selected_items(songs, sel.drop_last());
        match first_song(songs, sel.last(), 0) {
            Some(k) => r.push((sel.last(), songs[k].mem_unit, shown_title(songs[k].file.title@, songs[k].file.name@))),
            None => r,
        }
    }
}

/// The file numbers among `ps` on memory unit `mu`, in order.
pub open spec fn on_unit(ps: Seq<(u32, u8)>, mu: u8) -> Seq<u32>
    decreases ps.len(),
{
    if ps.len() == 0 {
        Seq::empty()
    } else if ps.last().1 == mu {
        on_unit(ps.drop_last(), mu).push(ps.last().0)
    } else {
        on_unit(ps.drop_last(), mu)
    }
}

/// The views of the strings of `items`.
pub open spec fn item_views(items: Seq<(u32, u8, String)>) -> Seq<(u32, u8, Seq<char>)> {
    Seq::new(items.len(), |i: int| (items[i].0, items[i].1, items[i].2@))
}

/// The question asked before deleting `n` songs.
pub open spec fn delete_question(n: nat) -> Seq<char> {
    "确认删除选中的 "@ + dec_digits(n) + " 首歌曲？"@
}

/// The number of pages for `total` songs, `per_page` a page: at least one.
pub open spec fn page_count(total: int, per_page: int) -> int {
    if total == 0 { 1 } else { (total + per_page - 1) / per_page }
}

/// The page shown when `page` is asked for: the last page at most.
pub open spec fn clamped_page(total: int, per_page: int, page: int) -> int {
    if page < page_count(total, per_page) - 1 { page } else { page_count(total, per_page) - 1 }
}

proof fn lemma_page_bounds(total: int, per_page: int, page: int)
    requires
        total >= 0,
        per_page > 0,
        page >= 0,
    ensures
        page_count(total, per_page) >= 1,
        0 <= clamped_page(total, per_page, page) < page_count(total, per_page),
        clamped_page(total, per_page, page) * per_page <= total,
{
    let n = page_count(total, per_page);
    let c = clamped_page(total, per_page, page);
    if total > 0 {
        assert(n >= 1) by (nonlinear_arith)
            requires n == (total + per_page - 1) / per_page, total > 0, per_page > 0;
        assert((n - 1) * per_page < total) by (nonlinear_arith)
            requires n == (total + per_page - 1) / per_page, total > 0, per_page > 0;
        assert(c * per_page <= (n - 1) * per_page) by (nonlinear_arith)
            requires c <= n - 1, per_page > 0, c >= 0;
    } else {
        assert(c == 0);
        assert(c * per_page == 0) by (nonlinear_arith)
            requires c == 0;
    }
}

proof fn lemma_page_count(total: int, per_page: int)
    requires
        total > 0,
        per_page > 0,
    ensures
        (total + per_page - 1) / per_page == (total - 1) / per_page + 1,
{
    assert((total + per_page - 1) / per_page == (total - 1) / per_page + 1) by (nonlinear_arith)
        requires per_page > 0, total > 0;
}

proof fn lemma_add_all(sel: Seq<u32>, xs: Seq<u32>)
    requires
        sel.no_duplicates(),
    ensures
        add_all(sel, xs).no_duplicates(),
        forall|y: u32| #[trigger] add_all(sel, xs).contains(y) <==> sel.contains(y) || xs.contains(y),
    decreases xs.len(),
{
    if xs.len() > 0 {
        let init = xs.drop_last();
        lemma_add_all(sel, init);
        let a = add_all(sel, init);
        assert forall|y: u32| #[trigger] add_all(sel, xs).contains(y) <==> sel.contains(y) || xs.contains(y) by {
            if xs.contains(y) && y != xs.last() {
                let k = choose|k: int| 0 <= k < xs.len() && xs[k] == y;
                assert(init[k] == y);
            }
            if init.contains(y) {
                let k = choose|k: int| 0 <= k < init.len() && init[k] == y;
                assert(xs[k] == y);
            }
            if !a.contains(xs.last()) {
                assert(a.push(xs.last())[a.len() as int] == xs.last());
                if a.push(xs.last()).contains(y) && y != xs.last() {
                    let k = choose|k: int| 0 <= k < a.len() + 1 && a.push(xs.last())[k] == y;
                    assert(a[k] == y);
                }
                if a.contains(y) {
                    let k = choose|k: int| 0 <= k < a.len() && a[k] == y;
                    assert(a.push(xs.last())[k] == y);
                }
            }
            assert(xs[xs.len() - 1] == xs.last());
        }
    }
}

proof fn lemma_without(sel: Seq<u32>, x: u32)
    requires
        sel.no_duplicates(),
    ensures
        without(sel, x).no_duplicates(),
        forall|y: u32| #[trigger] without(sel, x).contains(y) <==> sel.contains(y) && y != x,
    decreases sel.len(),
{
    if sel.len() > 0 {
        let init = sel.drop_last();
        lemma_without(init, x);
        let w = without(init, x);
        assert forall|y: u32| #[trigger] without(sel, x).contains(y) <==> sel.contains(y) && y != x by {
            if sel.contains(y) && y != sel.last() {
                let k = choose|k: int| 0 <= k < sel.len() && sel[k] == y;
                assert(init[k] == y);
            }
            if init.contains(y) {
                let k = choose|k: int| 0 <= k < init.len() && init[k] == y;
                assert(sel[k] == y);
            }
            if sel.last() != x {
                assert(w.push(sel.last())[w.len() as int] == sel.last());
                if w.push(sel.last()).contains(y) && y != sel.last() {
                    let k = choose|k: int| 0 <= k < w.len() + 1 && w.push(sel.last())[k] == y;
                    assert(w[k] == y);
                }
                if w.contains(y) {
                    let k = choose|k: int| 0 <= k < w.len() && w[k] == y;
                    assert(w.push(sel.last())[k] == y);
                }
            }
            assert(sel[sel.len() - 1] == sel.last());
        }
        if sel.last() != x {
            assert(!init.contains(sel.last())) by {
                if init.contains(sel.last()) {
                    let k = choose|k: int| 0 <= k < init.len() && init[k] == sel.last();
                    assert(sel[k] == sel[sel.len() - 1]);
                }
            }
            assert(!w.contains(sel.last()));
            let p = w.push(sel.last());
            assert forall|i: int, j: int| 0 <= i < j < p.len() implies p[i] != p[j] by {
                if j == w.len() {
                    assert(p[i] == w[i]);
                } else {
                    assert(p[i] == w[i] && p[j] == w[j]);
                }
            }
        }
    }
}

/// The selection is a set: clicks, ranges and select-all never put a song
/// in twice; a song clicked off is gone; a range or select-all keeps what
/// was selected and adds exactly the songs it covers.
pub proof fn law_selection_stays_a_set(sel: Seq<u32>, xs: Seq<u32>, x: u32)
    requires
        sel.no_duplicates(),
    ensures
        add_all(sel, xs).no_duplicates(),
        forall|y: u32| #[trigger] add_all(sel, xs).contains(y) <==> sel.contains(y) || xs.contains(y),
        without(sel, x).no_duplicates(),
        forall|y: u32| #[trigger] without(sel, x).contains(y) <==> sel.contains(y) && y != x,
        !sel.contains(x) ==> sel.push(x).no_duplicates(),
{
    lemma_add_all(sel, xs);
    lemma_without(sel, x);
    if !sel.contains(x) {
        assert forall|i: int, j: int| 0 <= i < j < sel.len() + 1 implies sel.push(x)[i] != sel.push(x)[j] by {
            if j == sel.len() {
                assert(sel.push(x)[i] == sel[i]);
            } else {
                assert(sel.push(x)[i] == sel[i] && sel.push(x)[j] == sel[j]);
            }
        }
    }
}

/// The window of a page of `total` songs, `per_page` a page, when `page`
/// is asked for: its first and past-the-end indices, the number of pages
/// (at least one), and the page shown (the last one at most).
pub fn page_window(total: usize, per_page: usize, page: usize) -> (r: (usize, usize, usize, usize))
    requires
        per_page > 0,
    ensures
        r.2 == page_count(total as int, per_page as int),
        r.3 == clamped_page(total as int, per_page as int, page as int),
        r.0 == r.3 * per_page,
        r.1 == (if r.0 + per_page < total { r.0 + per_page } else { total as int }),
        r.0 <= r.1 <= total,
{
    proof {
        lemma_page_bounds(total as int, per_page as int, page as int);
    }
    let pages: usize = if total == 0 { 1 } else { (total - 1) / per_page + 1 };
    proof {
        if total > 0 {
            lemma_page_count(total as int, per_page as int);
        }
    }
    let shown: usize = if page < pages - 1 { page } else { pages - 1 };
    let start: usize = shown * per_page;
    let end: usize = if total - start > per_page { start + per_page } else { total };
    (start, end, pages, shown)
}

fn first_song_exec(songs: &[SongEntry], n: u32) -> (r: Option<usize>)
    ensures
        r matches Some(k) ==> k < songs@.len() && first_song(songs@, n, 0) == Some(k as int),
        r is None ==> first_song(songs@, n, 0) is None,
{
    let mut i: usize = 0;
    while i < songs.len()
        invariant
            i <= songs@.len(),
            first_song(songs@, n, 0) == first_song(songs@, n, i as int),
        decreases songs@.len() - i,
    {
        if songs[i].file.file_no == n {
            return Some(i);
        }
        i = i + 1;
    }
    None
}

fn contains_u32(v: &Vec<u32>, x: u32) -> (r: bool)
    ensures
        r == v@.contains(x),
{
    let mut i: usize = 0;
    while i < v.len()
        invariant
            i <= v@.len(),
            forall|k: int| 0 <= k < i ==> v@[k] != x,
        decreases v@.len() - i,
    {
        if v[i] == x {
            return true;
        }
        i = i + 1;
    }
    false
}

fn add_one(sel: &mut Vec<u32>, x: u32)
    ensures
        final(sel)@ == with_added(old(sel)@, x),
{
    if !contains_u32(sel, x) {
        sel.push(x);
    }
}

fn remove_one(sel: &Vec<u32>, x: u32) -> (r: Vec<u32>)
    ensures
        r@ == without(sel@, x),
{
    let mut r: Vec<u32> = Vec::new();
    let mut i: usize = 0;
    while i < sel.len()
        invariant
            i <= sel@.len(),
            r@ == without(sel@.take(i as int), x),
        decreases sel@.len() - i,
    {
        assert(sel@.take(i + 1).drop_last() =~= sel@.take(i as int));
        if sel[i] != x {
            r.push(sel[i]);
        }
        i = i + 1;
    }
    assert(sel@.take(sel@.len() as int) =~= sel@);
    r
}

fn add_entries(sel: &mut Vec<u32>, es: &[SongEntry], from: usize, to: usize)
    requires
        from <= to <= es@.len(),
    ensures
        final(sel)@ == add_all(old(sel)@, file_nos(es@.subrange(from as int, to as int))),
{
    let mut i: usize = from;
    while i < to
        invariant
            from <= i <= to <= es@.len(),
            sel@ == add_all(old(sel)@, file_nos(es@.subrange(from as int, i as int))),
        decreases to - i,
    {
        add_one(sel, es[i].file.file_no);
        assert(file_nos(es@.subrange(from as int, i + 1)).drop_last() =~= file_nos(es@.subrange(from as int, i as int)));
        i = i + 1;
    }
}

fn pairs_of(songs: &[SongEntry], sel: &Vec<u32>) -> (r: Vec<(u32, u8)>)
    ensures
        r@ == selected_pairs(songs@, sel@),
{
    let mut r: Vec<(u32, u8)> = Vec::new();
    let mut i: usize = 0;
    while i < sel.len()
        invariant
            i <= sel@.len(),
            r@ == selected_pairs(songs@, sel@.take(i as int)),
        decreases sel@.len() - i,
    {
        assert(sel@.take(i + 1).drop_last() =~= sel@.take(i as int));
        let n = sel[i];
        match first_song_exec(songs, n) {
            Some(k) => r.push((n, songs[k].mem_unit)),
            None => {},
        }
        i = i + 1;
    }
    assert(sel@.take(sel@.len() as int) =~= sel@);
    r
}

fn items_of(songs: &[SongEntry], sel: &Vec<u32>) -> (r: Vec<(u32, u8, String)>)
    ensures
        item_views(r@) == selected_items(songs@, sel@),
{
    let mut r: Vec<(u32, u8, String)> = Vec::new();
    let mut i: usize = 0;
    while i < sel.len()
        invariant
            i <= sel@.len(),
            item_views(r@) == selected_items(songs@, sel@.take(i as int)),
        decreases sel@.len() - i,
    {
        assert(sel@.take(i + 1).drop_last() =~= sel@.take(i as int));
        let n = sel[i];
        match first_song_exec(songs, n) {
            Some(k) => {
                let t = display_title(&songs[k].file);
                let ghost before = r@;
                r.push((n, songs[k].mem_unit, t));
                assert(item_views(r@) =~= item_views(before).push((n, songs@[k as int].mem_unit, t@)));
            },
            None => {},
        }
        i = i + 1;
    }
    assert(sel@.take(sel@.len() as int) =~= sel@);
    r
}

fn unit_file_nos(ps: &Vec<(u32, u8)>, mu: u8) -> (r: Vec<u32>)
    ensures
        r@ == on_unit(ps@, mu),
{
    let mut r: Vec<u32> = Vec::new();
    let mut i: usize = 0;
    while i < ps.len()
        invariant
            i <= ps@.len(),
            r@ == on_unit(ps@.take(i as int), mu),
        decreases ps@.len() - i,
    {
        assert(ps@.take(i + 1).drop_last() =~= ps@.take(i as int));
        if ps[i].1 == mu {
            r.push(ps[i].0);
        }
        i = i + 1;
    }
    assert(ps@.take(ps@.len() as int) =~= ps@);
    r
}

/// What the page does on `ev`, given all songs and the shown (searched and
/// sorted) list:
/// - a click toggles the row's song in the selection; with Shift, the
///   selection becomes the songs from the row clicked last to this one (or
///   just this one if none was); either way this row becomes the last one;
/// - a double click stops the audio, then stops playing the row's song if it
///   was playing, else plays it;
/// - select-all adds every song; clear empties the selection;
/// - the page buttons move one page within the pages there are;
/// - batch delete asks to confirm deleting the selected songs of the memory
///   unit of the first of them (the others stay);
/// - batch download downloads each selected song; add-to-playlist opens
///   the dialog for the first selected song;
/// - batch pinyin and noise removal send the selected songs with their shown
///   titles; with nothing selected the toolbar's buttons do nothing.
#[verifier::rlimit(40)]
pub fn songs_step(
    view: SongsView,
    songs: &[SongEntry],
    shown: &[SongEntry],
    per_page: usize,
    ev: SongsEvent,
) -> (r: (SongsView, Vec<SongsAction>))
    requires
        per_page > 0,
        ev matches SongsEvent::RowClicked { index, shift } ==> index < shown@.len(),
        ev matches SongsEvent::RowClicked { index, shift } ==> (shift ==> (view.last_clicked matches Some(l) ==> l
            < shown@.len())),
        ev matches SongsEvent::RowDoubleClicked { index } ==> index < shown@.len(),
    ensures
        match ev {
            SongsEvent::RowClicked { index, shift } => {
                let n = shown@[index as int].file.file_no;
                &&& r.1@.len() == 0
                &&& r.0.last_clicked == Some(index)
                &&& r.0.current_page == view.current_page && r.0.playing == view.playing
                &&& r.0.selected@ == (if shift {
                    match view.last_clicked {
                        Some(l) => {
                            let lo = if l < index { l } else { index };
                            let hi = if l < index { index } else { l };
                            add_all(Seq::empty(), file_nos(shown@.subrange(lo as int, hi + 1)))
                        },
                        None => seq![n],
                    }
                } else if view.selected@.contains(n) {
                    without(view.selected@, n)
                } else {
                    view.selected@.push(n)
                })
            },
            SongsEvent::RowDoubleClicked { index } => {
                let n = shown@[index as int].file.file_no;
                &&& r.0.selected == view.selected && r.0.last_clicked == view.last_clicked
                &&& r.0.current_page == view.current_page
                &&& r.1@.len() >= 1 && r.1@[0] is StopAudio
                &&& if view.playing == Some(n) {
                    r.0.playing is None && r.1@.len() == 1
                } else {
                    &&& r.0.playing == Some(n) && r.1@.len() == 2
                    &&& r.1@[1] == SongsAction::Play { file_no: n, mem_unit: shown@[index as int].mem_unit }
                }
            },
            SongsEvent::SelectAll => {
                &&& r.1@.len() == 0
                &&& r.0.selected@ == add_all(view.selected@, file_nos(songs@))
                &&& r.0.last_clicked == view.last_clicked && r.0.current_page == view.current_page
                &&& r.0.playing == view.playing
            },
            SongsEvent::ClearSelection => {
                &&& r.1@.len() == 0
                &&& r.0.selected@.len() == 0 && r.0.last_clicked is None
                &&& r.0.current_page == view.current_page && r.0.playing == view.playing
            },
            SongsEvent::PrevPage => {
                let c = clamped_page(shown@.len() as int, per_page as int, view.current_page as int);
                &&& r.1@.len() == 0
                &&& r.0.current_page == (if c > 0 { c - 1 } else { view.current_page as int })
                &&& r.0.selected == view.selected && r.0.last_clicked == view.last_clicked
                &&& r.0.playing == view.playing
            },
            SongsEvent::NextPage => {
                let c = clamped_page(shown@.len() as int, per_page as int, view.current_page as int);
                &&& r.1@.len() == 0
                &&& r.0.current_page == (if c < page_count(shown@.len() as int, per_page as int) - 1 {
                    c + 1
                } else {
                    view.current_page as int
                })
                &&& r.0.selected == view.selected && r.0.last_clicked == view.last_clicked
                &&& r.0.playing == view.playing
            },
            SongsEvent::DeleteSelected => {
                let ps = selected_pairs(songs@, view.selected@);
                &&& r.0 == view
                &&& if ps.len() == 0 {
                    r.1@.len() == 0
                } else {
                    &&& r.1@.len() == 1
                    &&& r.1@[0] matches SongsAction::Confirm(d)
                    &&& d.action matches ConfirmAction::DeleteSongsBatch { file_nos, mem_unit }
                        && mem_unit == ps[0].1 && file_nos@ == on_unit(ps, ps[0].1)
                    &&& d.message@ == delete_question(ps.len())
                }
            },
            SongsEvent::DownloadSelected => {
                &&& r.0 == view
                &&& r.1@.len() == 1
                &&& r.1@[0] matches SongsAction::DownloadEach(ps) && ps@ == selected_pairs(songs@, view.selected@)
            },
            SongsEvent::AddSelectedToPlaylist => {
                &&& r.0 == view
                &&& if view.selected@.len() == 0 {
                    r.1@.len() == 0
                } else {
                    r.1@.len() == 1 && r.1@[0] == SongsAction::ChoosePlaylistFor(view.selected@[0])
                }
            },
            SongsEvent::SlugSelected => {
                &&& r.0 == view
                &&& if view.selected@.len() == 0 {
                    r.1@.len() == 0
                } else {
                    &&& r.1@.len() == 1
                    &&& r.1@[0] matches SongsAction::Send(Command::BatchSlugSongs { items })
                        && item_views(items@) == selected_items(songs@, view.selected@)
                }
            },
            SongsEvent::StripSelected { custom_words } => {
                &&& r.0 == view
                &&& if view.selected@.len() == 0 {
                    r.1@.len() == 0
                } else {
                    &&& r.1@.len() == 1
                    &&& r.1@[0] matches SongsAction::Send(Command::BatchStripSongs { items, custom_words: w })
                        && item_views(items@) == selected_items(songs@, view.selected@) && w == custom_words
                }
            },
        },
{
    let mut actions: Vec<SongsAction> = Vec::new();
    match ev {
        SongsEvent::RowClicked { index, shift } => {
            let n = shown[index].file.file_no;
            let mut v = view;
            if shift {
                match v.last_clicked {
                    Some(l) => {
                        let lo = if l < index { l } else { index };
                        let hi = if l < index { index } else { l };
                        let mut sel: Vec<u32> = Vec::new();
                        add_entries(&mut sel, shown, lo, hi + 1);
                        v.selected = sel;
                    },
                    None => {
                        let mut sel: Vec<u32> = Vec::new();
                        sel.push(n);
                        v.selected = sel;
                    },
                }
            } else if contains_u32(&v.selected, n) {
                v.selected = remove_one(&v.selected, n);
            } else {
                v.selected.push(n);
            }
            v.last_clicked = Some(index);
            (v, actions)
        },
        SongsEvent::RowDoubleClicked { index } => {
            let n = shown[index].file.file_no;
            let mut v = view;
            actions.push(SongsAction::StopAudio);
            let is_playing = match v.playing {
                Some(p) => p == n,
                None => false,
            };
            if is_playing {
                v.playing = None;
            } else {
                v.playing = Some(n);
                actions.push(SongsAction::Play { file_no: n, mem_unit: shown[index].mem_unit });
            }
            (v, actions)
        },
        SongsEvent::SelectAll => {
            let mut v = view;
            add_entries(&mut v.selected, songs, 0, songs.len());
            assert(songs@.subrange(0, songs@.len() as int) =~= songs@);
            (v, actions)
        },
        SongsEvent::ClearSelection => {
            let mut v = view;
            v.selected = Vec::new();
            v.last_clicked = None;
            (v, actions)
        },
        SongsEvent::PrevPage => {
            let (_, _, _, c) = page_window(shown.len(), per_page, view.current_page);
            let mut v = view;
            if c > 0 {
                v.current_page = c - 1;
            }
            (v, actions)
        },
        SongsEvent::NextPage => {
            let (_, _, pages, c) = page_window(shown.len(), per_page, view.current_page);
            let mut v = view;
            if c < pages - 1 {
                v.current_page = c + 1;
            }
            (v, actions)
        },
        SongsEvent::DeleteSelected => {
            let ps = pairs_of(songs, &view.selected);
            if ps.len() > 0 {
                let mu = ps[0].1;
                let file_nos = unit_file_nos(&ps, mu);
                let mut m: Vec<char> = Vec::new();
                push_str(&mut m, "确认删除选中的 ");
                push_decimal(&mut m, ps.len() as u64);
                push_str(&mut m, " 首歌曲？");
                let message = string_from_chars(m.as_slice());
                actions.push(SongsAction::Confirm(ConfirmDialog {
                    action: ConfirmAction::DeleteSongsBatch { file_nos, mem_unit: mu },
                    message,
                }));
            }
            (view, actions)
        },
        SongsEvent::DownloadSelected => {
            let ps = pairs_of(songs, &view.selected);
            actions.push(SongsAction::DownloadEach(ps));
            (view, actions)
        },
        SongsEvent::AddSelectedToPlaylist => {
            if view.selected.len() > 0 {
                actions.push(SongsAction::ChoosePlaylistFor(view.selected[0]));
            }
            (view, actions)
        },
        SongsEvent::SlugSelected => {
            if view.selected.len() > 0 {
                let items = items_of(songs, &view.selected);
                actions.push(SongsAction::Send(Command::BatchSlugSongs { items }));
            }
            (view, actions)
        },
        SongsEvent::StripSelected { custom_words } => {
            if view.selected.len() > 0 {
                let items = items_of(songs, &view.selected);
                actions.push(SongsAction::Send(Command::BatchStripSongs { items, custom_words }));
            }
            (view, actions)
        },
    }
}

} // verus!
