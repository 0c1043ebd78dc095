//! Mirroring a local folder onto the device: the device ends up holding
//! exactly the folder's MP3 files, matched by file name alone.
use vstd::prelude::*;
use crate::rio_file::RioFile;
use crate::constants::TYPE_MP3;
use crate::strings::{str_chars, chars_eq, string_from_chars, copy_range, push_str};
use crate::error::{CyrioError, error_message};
use crate::kana::string_views;

verus! {

/// A rule mirroring a local folder onto a memory unit.
#[derive(Debug, Clone)]
pub struct SyncRule {
    /// Rule id.
    pub id: String,
    /// The local folder.
    pub local_path: String,
    /// Target memory unit (0 internal, 1 SD card).
    pub mem_unit: u8,
    /// A playlist to add uploaded songs to, if any.
    pub playlist_file_no: Option<u32>,
    /// When the rule last ran (Unix seconds).
    pub last_sync_at: Option<u64>,
}

/// What a sync did.
#[derive(Debug, Clone)]
pub struct SyncResult {
    /// Songs uploaded.
    pub added: Vec<String>,
    /// Songs deleted.
    pub deleted: Vec<String>,
    /// Songs already there.
    pub skipped: Vec<String>,
    /// Errors met.
    pub errors: Vec<String>,
}

/// The rules of `rules` whose id is not `id`, in their order.
pub open spec fn rules_without(rules: Seq<SyncRule>, id: Seq<char>) -> Seq<SyncRule>
    decreases rules.len(),
{
    if rules.len() == 0 {
        Seq::empty()
    } else if rules[0].id@ == id {
        rules_without(rules.drop_first(), id)
    } else {
        seq![rules[0]] + rules_without(rules.drop_first(), id)
    }
}

/// The position of the first rule with id `id`.
pub fn rule_position(rules: &[SyncRule], id: &str) -> (r: Option<usize>)
    ensures
        match r {
            Some(k) => k < rules@.len() && rules@[k as int].id@ == id@
                && forall|j: int| 0 <= j < k ==> rules@[j].id@ != id@,
            None => forall|j: int| 0 <= j < rules@.len() ==> rules@[j].id@ != id@,
        },
{
    let want = str_chars(id);
    let mut i: usize = 0;
    while i < rules.len()
        invariant
            i <= rules@.len(),
            want@ == id@,
            forall|j: int| 0 <= j < i ==> rules@[j].id@ != id@,
        decreases rules@.len() - i,
    {
        let have = str_chars(rules[i].id.as_str());
        if chars_eq(have.as_slice(), want.as_slice()) {
            return Some(i);
        }
        i = i + 1;
    }
    None
}

/// Removes every rule with id `id`; the others keep their order.
pub fn remove_rule(rules: Vec<SyncRule>, id: &str) -> (r: Vec<SyncRule>)
    ensures
        r@ == rules_without(rules@, id@),
{
    let want = str_chars(id);
    let mut rest = rules;
    let mut kept: Vec<SyncRule> = Vec::new();
    while rest.len() > 0
        invariant
            want@ == id@,
            kept@ + rules_without(rest@, id@) == rules_without(rules@, id@),
        decreases rest@.len(),
    {
        let ghost before = rest@;
        let rule = rest.remove(0);
        assert(rest@ =~= before.drop_first());
        let have = str_chars(rule.id.as_str());
        if !chars_eq(have.as_slice(), want.as_slice()) {
            let ghost k0 = kept@;
            kept.push(rule);
            assert(kept@ + rules_without(rest@, id@) =~= k0 + (seq![before[0]] + rules_without(rest@, id@)));
        }
    }
    assert(kept@ + rules_without(rest@, id@) =~= kept@);
    kept
}

/// Records `now` as the last run of the first rule with id `id`; the list
/// is otherwise unchanged.
pub fn mark_synced(rules: &mut Vec<SyncRule>, id: &str, now: u64)
    ensures
        final(rules)@.len() == old(rules)@.len(),
        match rule_index(old(rules)@, id@) {
            Some(k) => final(rules)@ == old(rules)@.update(k, SyncRule {
                last_sync_at: Some(now),
                ..old(rules)@[k]
            }),
            None => final(rules)@ == old(rules)@,
        },
{
    match rule_position(rules.as_slice(), id) {
        Some(k) => {
            proof {
                lemma_rule_index(rules@, id@, k as int);
            }
            let ghost before = rules@;
            let mut rule = rules.remove(k);
            rule.last_sync_at = Some(now);
            rules.insert(k, rule);
            assert(rules@ =~= before.update(k as int, SyncRule { last_sync_at: Some(now), ..before[k as int] }));
        },
        None => {
            proof {
                lemma_rule_index_none(rules@, id@);
            }
        },
    }
}

/// The position of the first rule with id `id`.
pub open spec fn rule_index(rules: Seq<SyncRule>, id: Seq<char>) -> Option<int> {
    if exists|k: int| 0 <= k < rules.len() && rules[k].id@ == id {
        Some(choose|k: int| 0 <= k < rules.len() && rules[k].id@ == id
            && forall|j: int| 0 <= j < k ==> rules[j].id@ != id)
    } else {
        None
    }
}

proof fn lemma_rule_index(rules: Seq<SyncRule>, id: Seq<char>, k: int)
    requires
        0 <= k < rules.len(),
        rules[k].id@ == id,
        forall|j: int| 0 <= j < k ==> rules[j].id@ != id,
    ensures
        rule_index(rules, id) == Some(k),
{
    assert(exists|k: int| 0 <= k < rules.len() && rules[k].id@ == id);
    assert(exists|m: int| 0 <= m < rules.len() && rules[m].id@ == id
        && forall|j: int| 0 <= j < m ==> rules[j].id@ != id);
    let m = choose|m: int| 0 <= m < rules.len() && rules[m].id@ == id
        && forall|j: int| 0 <= j < m ==> rules[j].id@ != id;
    if m < k {
        assert(rules[m].id@ != id);
    }
    if k < m {
        assert(rules[k].id@ != id);
    }
}

proof fn lemma_rule_index_none(rules: Seq<SyncRule>, id: Seq<char>)
    requires
        forall|j: int| 0 <= j < rules.len() ==> rules[j].id@ != id,
    ensures
        rule_index(rules, id) is None,
{
}

/// Where the last path part of `s` starts: after its last '\' or '/'.
pub open spec fn base_start(s: Seq<char>) -> int
    decreases s.len(),
{
    if s.len() == 0 {
        0
    } else if s.last() == '\\' || s.last() == '/' {
        s.len() as int
    } else {
        base_start(s.drop_last())
    }
}

/// The last part of a device file name ("D:\x.mp3" gives "x.mp3").
pub open spec fn basename(s: Seq<char>) -> Seq<char> {
    s.skip(base_start(s))
}

proof fn lemma_base_start(s: Seq<char>)
    ensures
        0 <= base_start(s) <= s.len(),
    decreases s.len(),
{
    if s.len() > 0 && !(s.last() == '\\' || s.last() == '/') {
        lemma_base_start(s.drop_last());
    }
}

/// The last part of a path, after its last '\' or '/'.
pub fn path_basename(name: &str) -> (b: String)
    ensures
        b@ == basename(name@),
{
    let cs = str_chars(name);
    let mut k: usize = cs.len();
    assert(cs@.take(cs@.len() as int) =~= cs@);
    while k > 0 && !(cs[k - 1] == '\\' || cs[k - 1] == '/')
        invariant
            k <= cs@.len(),
            cs@ == name@,
            base_start(name@) == base_start(cs@.take(k as int)),
        decreases k,
    {
        assert(cs@.take(k as int).drop_last() =~= cs@.take(k - 1));
        k = k - 1;
    }
    let r = copy_range(cs.as_slice(), k, cs.len());
    assert(r@ =~= name@.skip(k as int));
    string_from_chars(r.as_slice())
}

/// Whether `name` is one of `names`.
pub open spec fn has_name(names: Seq<Seq<char>>, name: Seq<char>) -> bool {
    exists|i: int| 0 <= i < names.len() && names[i] == name
}

/// No name occurs twice.
pub open spec fn distinct(names: Seq<Seq<char>>) -> bool {
    forall|i: int, j: int| 0 <= i < j < names.len() ==> names[i] != names[j]
}

fn find_text(v: &Vec<String>, name: &str) -> (r: Option<usize>)
    ensures
        match r {
            Some(w) => w < v@.len() && v@[w as int]@ == name@,
            None => !has_name(string_views(v@), name@),
        },
{
    let nc = str_chars(name);
    let mut i: usize = 0;
    while i < v.len()
        invariant
            i <= v@.len(),
            nc@ == name@,
            forall|k: int| 0 <= k < i ==> v@[k]@ != name@,
        decreases v@.len() - i,
    {
        let c = str_chars(v[i].as_str());
        if chars_eq(c.as_slice(), nc.as_slice()) {
            return Some(i);
        }
        i = i + 1;
    }
    assert forall|k: int| 0 <= k < string_views(v@).len() implies string_views(v@)[k] != name@ by {
        assert(string_views(v@)[k] == v@[k]@);
    }
    None
}

/// The position of the last MP3 record whose basename is `n`.
pub open spec fn last_mp3_with(files: Seq<RioFile>, n: Seq<char>) -> Option<int>
    decreases files.len(),
{
    if files.len() == 0 {
        None
    } else if files.last().file_type == TYPE_MP3 && basename(files.last().name@) == n {
        Some(files.len() - 1)
    } else {
        last_mp3_with(files.drop_last(), n)
    }
}

proof fn lemma_last_mp3_bound(files: Seq<RioFile>, n: Seq<char>)
    ensures
        last_mp3_with(files, n) matches Some(k) ==> 0 <= k < files.len(),
    decreases files.len(),
{
    if files.len() > 0 {
        lemma_last_mp3_bound(files.drop_last(), n);
    }
}

/// The last MP3 record with basename `n` has file number `no`.
pub open spec fn maps_to(files: Seq<RioFile>, n: Seq<char>, no: u32) -> bool {
    last_mp3_with(files, n) matches Some(k) && files[k].file_no == no
}

proof fn lemma_maps_to_grow(prev: Seq<RioFile>, next: Seq<RioFile>, n: Seq<char>, no: u32)
    requires
        next.len() == prev.len() + 1,
        next.drop_last() == prev,
        last_mp3_with(next, n) == last_mp3_with(prev, n),
        maps_to(prev, n, no),
    ensures
        maps_to(next, n, no),
{
    lemma_last_mp3_bound(prev, n);
    let k = last_mp3_with(prev, n)->0;
    assert(next[k] == prev[k]);
}

/// The basenames of the MP3 records, each once, with the file number of the
/// last record of that name.
pub fn device_song_names(files: &[RioFile]) -> (r: (Vec<String>, Vec<u32>))
    ensures
        r.0@.len() == r.1@.len(),
        distinct(string_views(r.0@)),
        forall|n: Seq<char>| #[trigger] has_name(string_views(r.0@), n) <==> last_mp3_with(files@, n) is Some,
        forall|m: int| 0 <= m < r.0@.len() ==> #[trigger] maps_to(files@, r.0@[m]@, r.1@[m]),
{
    let mut names: Vec<String> = Vec::new();
    let mut nos: Vec<u32> = Vec::new();
    let mut i: usize = 0;
    while i < files.len()
        invariant
            i <= files@.len(),
            names@.len() == nos@.len(),
            distinct(string_views(names@)),
            forall|n: Seq<char>| #[trigger] has_name(string_views(names@), n) <==> last_mp3_with(files@.take(i as int), n) is Some,
            forall|m: int| 0 <= m < names@.len() ==> #[trigger] maps_to(files@.take(i as int), names@[m]@, nos@[m]),
        decreases files@.len() - i,
    {
        let ghost prev = files@.take(i as int);
        let ghost next = files@.take(i + 1);
        assert(next.drop_last() =~= prev);
        assert(next.last() == files@[i as int]);
        let f = &files[i];
        if f.file_type == TYPE_MP3 {
            let b = path_basename(f.name.as_str());
            match find_text(&names, b.as_str()) {
                Some(w) => {
                    let ghost old_nos = nos@;
                    nos.set(w, f.file_no);
                    assert forall|n: Seq<char>| #[trigger] has_name(string_views(names@), n) <==> last_mp3_with(next, n) is Some by {
                        if n != b@ {
                            assert(last_mp3_with(next, n) == last_mp3_with(prev, n));
                        } else {
                            assert(string_views(names@)[w as int] == n);
                        }
                    }
                    assert forall|m: int| 0 <= m < names@.len() implies #[trigger] maps_to(next, names@[m]@, nos@[m]) by {
                        if m == w {
                            assert(last_mp3_with(next, names@[m]@) == Some(i as int));
                            assert(next[i as int] == files@[i as int]);
                        } else {
                            assert(names@[m]@ != names@[w as int]@) by {
                                if m < w {
                                    assert(string_views(names@)[m] != string_views(names@)[w as int]);
                                } else {
                                    assert(string_views(names@)[w as int] != string_views(names@)[m]);
                                }
                            }
                            assert(last_mp3_with(next, names@[m]@) == last_mp3_with(prev, names@[m]@));
                            assert(old_nos[m] == nos@[m]);
                            lemma_maps_to_grow(prev, next, names@[m]@, nos@[m]);
                        }
                    }
                },
                None => {
                    let ghost old_names = string_views(names@);
                    let ghost old_nos = nos@;
                    names.push(b);
                    nos.push(f.file_no);
                    assert(string_views(names@) =~= old_names.push(b@));
                    assert forall|n: Seq<char>| #[trigger] has_name(string_views(names@), n) <==> last_mp3_with(next, n) is Some by {
                        if n != b@ {
                            assert(last_mp3_with(next, n) == last_mp3_with(prev, n));
                            if has_name(string_views(names@), n) {
                                let q = choose|q: int| 0 <= q < string_views(names@).len() && string_views(names@)[q] == n;
                                assert(q < old_names.len());
                                assert(has_name(old_names, n));
                            }
                            if has_name(old_names, n) {
                                let q = choose|q: int| 0 <= q < old_names.len() && old_names[q] == n;
                                assert(string_views(names@)[q] == n);
                            }
                        } else {
                            assert(string_views(names@)[old_names.len() as int] == n);
                        }
                    }
                    assert forall|m: int| 0 <= m < names@.len() implies #[trigger] maps_to(next, names@[m]@, nos@[m]) by {
                        if m < old_names.len() {
                            assert(names@[m]@ == old_names[m]);
                            assert(names@[m]@ != b@) by {
                                assert(has_name(old_names, old_names[m]));
                            }
                            assert(last_mp3_with(next, names@[m]@) == last_mp3_with(prev, names@[m]@));
                            assert(old_nos[m] == nos@[m]);
                            lemma_maps_to_grow(prev, next, names@[m]@, nos@[m]);
                        } else {
                            assert(names@[m]@ == b@);
                            assert(last_mp3_with(next, names@[m]@) == Some(i as int));
                            assert(next[i as int] == files@[i as int]);
                        }
                    }
                    assert forall|x: int, y: int| 0 <= x < y < string_views(names@).len() implies string_views(names@)[x] != string_views(names@)[y] by {
                        if y == old_names.len() {
                            assert(string_views(names@)[x] == old_names[x]);
                            if old_names[x] == b@ {
                                assert(has_name(old_names, b@));
                            }
                        } else {
                            assert(string_views(names@)[x] == old_names[x]);
                            assert(string_views(names@)[y] == old_names[y]);
                        }
                    }
                },
            }
        } else {
            assert forall|n: Seq<char>| #[trigger] has_name(string_views(names@), n) <==> last_mp3_with(next, n) is Some by {
                assert(last_mp3_with(next, n) == last_mp3_with(prev, n));
            }
            assert forall|m: int| 0 <= m < names@.len() implies #[trigger] maps_to(next, names@[m]@, nos@[m]) by {
                assert(last_mp3_with(next, names@[m]@) == last_mp3_with(prev, names@[m]@));
                lemma_maps_to_grow(prev, next, names@[m]@, nos@[m]);
            }
        }
        i = i + 1;
    }
    assert(files@.take(files@.len() as int) =~= files@);
    (names, nos)
}

/// The names of named file numbers.
pub open spec fn pair_names(v: Seq<(String, u32)>) -> Seq<Seq<char>> {
    v.map_values(|p: (String, u32)| p.0@)
}

/// What a sync does, by file name: upload the local names the device lacks,
/// delete the device names the folder lacks, skip the names both have;
/// each name listed once.
pub open spec fn is_sync_plan(
    local: Seq<Seq<char>>,
    device: Seq<Seq<char>>,
    add: Seq<Seq<char>>,
    delete: Seq<Seq<char>>,
    skip: Seq<Seq<char>>,
) -> bool {
    &&& distinct(add) && distinct(delete) && distinct(skip)
    &&& forall|n: Seq<char>| #[trigger] has_name(add, n) <==> has_name(local, n) && !has_name(device, n)
    &&& forall|n: Seq<char>| #[trigger] has_name(delete, n) <==> has_name(device, n) && !has_name(local, n)
    &&& forall|n: Seq<char>| #[trigger] has_name(skip, n) <==> has_name(local, n) && has_name(device, n)
}

/// `e` names a device file with its file number.
pub open spec fn from_device(names: Seq<String>, nos: Seq<u32>, e: (String, u32)) -> bool {
    exists|q: int| 0 <= q < names.len() && names[q]@ == e.0@ && nos[q] == e.1
}

/// What a sync should do (see `is_sync_plan`), given the local names and
/// the device's names with their file numbers (each name once); the files
/// to delete come with their file numbers.
pub fn sync_plan(local: &Vec<String>, device_names: &Vec<String>, device_nos: &Vec<u32>) -> (r: (Vec<String>, Vec<(String, u32)>, Vec<String>))
    requires
        device_names@.len() == device_nos@.len(),
    ensures
        is_sync_plan(
            string_views(local@),
            string_views(device_names@),
            string_views(r.0@),
            pair_names(r.1@),
            string_views(r.2@),
        ),
        forall|k: int| 0 <= k < r.1@.len() ==> from_device(device_names@, device_nos@, #[trigger] r.1@[k]),
{
    let mut add: Vec<String> = Vec::new();
    let mut skip: Vec<String> = Vec::new();
    let mut i: usize = 0;
    while i < local.len()
        invariant
            i <= local@.len(),
            distinct(string_views(add@)) && distinct(string_views(skip@)),
            forall|n: Seq<char>| #[trigger] has_name(string_views(add@), n) <==> has_name(string_views(local@).take(i as int), n)
                && !has_name(string_views(device_names@), n),
            forall|n: Seq<char>| #[trigger] has_name(string_views(skip@), n) <==> has_name(string_views(local@).take(i as int), n)
                && has_name(string_views(device_names@), n),
        decreases local@.len() - i,
    {
        let ghost lv = string_views(local@);
        let ghost dv = string_views(device_names@);
        let ghost a0 = string_views(add@);
        let ghost s0 = string_views(skip@);
        let name = local[i].as_str();
        assert(lv[i as int] == name@);
        proof {
            lemma_has_name_take(lv, i as int);
        }
        let found = find_text(device_names, name);
        let on_device = found.is_some();
        proof {
            if on_device {
                assert(dv[found->0 as int] == name@);
            }
        }
        assert(on_device == has_name(dv, name@));
        if on_device {
            match find_text(&skip, name) {
                None => {
                    skip.push(local[i].clone());
                    assert(string_views(skip@) =~= s0.push(name@));
                    proof {
                        lemma_push_new_name(s0, name@);
                    }
                },
                Some(w) => {
                    assert(s0[w as int] == name@);
                },
            }
        } else {
            match find_text(&add, name) {
                None => {
                    add.push(local[i].clone());
                    assert(string_views(add@) =~= a0.push(name@));
                    proof {
                        lemma_push_new_name(a0, name@);
                    }
                },
                Some(w) => {
                    assert(a0[w as int] == name@);
                },
            }
        }
        assert forall|n: Seq<char>| #[trigger] has_name(string_views(add@), n) <==> has_name(lv.take(i + 1), n)
            && !has_name(dv, n) by {
            assert(has_name(lv.take(i + 1), n) <==> has_name(lv.take(i as int), n) || n == lv[i as int]);
        }
        assert forall|n: Seq<char>| #[trigger] has_name(string_views(skip@), n) <==> has_name(lv.take(i + 1), n)
            && has_name(dv, n) by {
            assert(has_name(lv.take(i + 1), n) <==> has_name(lv.take(i as int), n) || n == lv[i as int]);
        }
        i = i + 1;
    }
    assert(string_views(local@).take(local@.len() as int) =~= string_views(local@));
    let mut del: Vec<(String, u32)> = Vec::new();
    let ghost mut srcs: Seq<int> = Seq::empty();
    let mut j: usize = 0;
    while j < device_names.len()
        invariant
            j <= device_names@.len(),
            device_names@.len() == device_nos@.len(),
            distinct(pair_names(del@)),
            forall|n: Seq<char>| #[trigger] has_name(pair_names(del@), n) <==> has_name(string_views(device_names@).take(j as int), n)
                && !has_name(string_views(local@), n),
            srcs.len() == del@.len(),
            forall|k: int| 0 <= k < del@.len() ==> 0 <= #[trigger] srcs[k] < device_names@.len()
                && device_names@[srcs[k]]@ == del@[k].0@ && device_nos@[srcs[k]] == del@[k].1,
        decreases device_names@.len() - j,
    {
        let ghost dv = string_views(device_names@);
        let ghost lv = string_views(local@);
        let ghost d0 = pair_names(del@);
        let ghost del0 = del@;
        let name = device_names[j].as_str();
        assert(dv[j as int] == name@);
        proof {
            lemma_has_name_take(dv, j as int);
        }
        let lf = find_text(local, name);
        proof {
            if lf is Some {
                assert(lv[lf->0 as int] == name@);
            }
        }
        if lf.is_none() {
            let mut already = false;
            let mut q: usize = 0;
            while q < del.len()
                invariant
                    q <= del@.len(),
                    d0 == pair_names(del@),
                    del@ == del0,
                    !already ==> forall|t: int| 0 <= t < q ==> d0[t] != name@,
                    already ==> has_name(d0, name@),
                decreases del@.len() - q,
            {
                let c1 = str_chars(del[q].0.as_str());
                let c2 = str_chars(name);
                if chars_eq(c1.as_slice(), c2.as_slice()) {
                    already = true;
                    assert(d0[q as int] == name@);
                }
                q = q + 1;
            }
            if !already {
                let entry = (device_names[j].clone(), device_nos[j]);
                del.push(entry);
                assert(pair_names(del@) =~= d0.push(name@));
                proof {
                    lemma_push_new_name(d0, name@);
                }
                proof {
                    srcs = srcs.push(j as int);
                }
                assert(del@[del@.len() - 1] == entry);
            }
        }
        assert forall|n: Seq<char>| #[trigger] has_name(pair_names(del@), n) <==> has_name(dv.take(j + 1), n)
            && !has_name(lv, n) by {
            assert(has_name(dv.take(j + 1), n) <==> has_name(dv.take(j as int), n) || n == dv[j as int]);
        }
        j = j + 1;
    }
    assert(string_views(device_names@).take(device_names@.len() as int) =~= string_views(device_names@));
    assert forall|k: int| 0 <= k < del@.len() implies from_device(device_names@, device_nos@, #[trigger] del@[k]) by {
        let q = srcs[k];
        assert(device_names@[q]@ == del@[k].0@);
    }
    (add, del, skip)
}

proof fn lemma_has_name_take(s: Seq<Seq<char>>, i: int)
    requires
        0 <= i < s.len(),
    ensures
        forall|n: Seq<char>| #[trigger] has_name(s.take(i + 1), n) <==> has_name(s.take(i), n) || n == s[i],
{
    let t1 = s.take(i + 1);
    let t0 = s.take(i);
    assert forall|n: Seq<char>| #[trigger] has_name(t1, n) <==> has_name(t0, n) || n == s[i] by {
        if has_name(t1, n) {
            let q = choose|q: int| 0 <= q < t1.len() && t1[q] == n;
            if q < i {
                assert(t0[q] == n);
            }
        }
        if has_name(t0, n) {
            let q = choose|q: int| 0 <= q < t0.len() && t0[q] == n;
            assert(t1[q] == n);
        }
        if n == s[i] {
            assert(t1[i] == n);
        }
    }
}

proof fn lemma_push_new_name(s: Seq<Seq<char>>, x: Seq<char>)
    requires
        distinct(s),
        !has_name(s, x),
    ensures
        distinct(s.push(x)),
        forall|n: Seq<char>| #[trigger] has_name(s.push(x), n) <==> has_name(s, n) || n == x,
{
    assert forall|i: int, j: int| 0 <= i < j < s.push(x).len() implies s.push(x)[i] != s.push(x)[j] by {
        if j == s.len() {
            if s[i] == x {
                assert(has_name(s, x));
            }
        }
    }
    assert forall|n: Seq<char>| #[trigger] has_name(s.push(x), n) <==> has_name(s, n) || n == x by {
        if has_name(s.push(x), n) {
            let q = choose|q: int| 0 <= q < s.push(x).len() && s.push(x)[q] == n;
            if q < s.len() {
                assert(s[q] == n);
            }
        }
        if has_name(s, n) {
            let q = choose|q: int| 0 <= q < s.len() && s[q] == n;
            assert(s.push(x)[q] == n);
        }
        if n == x {
            assert(s.push(x)[s.len() as int] == n);
        }
    }
}

/// A sync mirrors the folder: after deleting and uploading as planned, the
/// device holds exactly the folder's names.
pub proof fn law_sync_mirrors_folder(
    local: Seq<Seq<char>>,
    device: Seq<Seq<char>>,
    add: Seq<Seq<char>>,
    delete: Seq<Seq<char>>,
    skip: Seq<Seq<char>>,
    n: Seq<char>,
)
    requires
        is_sync_plan(local, device, add, delete, skip),
    ensures
        ((has_name(device, n) && !has_name(delete, n)) || has_name(add, n)) <==> has_name(local, n),
        !(has_name(add, n) && has_name(delete, n)),
{
    assert(has_name(add, n) <==> has_name(local, n) && !has_name(device, n));
    assert(has_name(delete, n) <==> has_name(device, n) && !has_name(local, n));
}

/// The message of a failed step of a sync: the step, the song's name and
/// the error.
pub open spec fn sync_error_message(step: Seq<char>, name: Seq<char>, e: CyrioError) -> Seq<char> {
    step + " "@ + name + " 失败: "@ + error_message(e)
}

fn sync_error(step: &str, name: &str, e: &CyrioError) -> (s: String)
    ensures
        s@ == sync_error_message(step@, name@, *e),
{
    let mut m: Vec<char> = Vec::new();
    push_str(&mut m, step);
    push_str(&mut m, " ");
    push_str(&mut m, name);
    push_str(&mut m, " 失败: ");
    let t = e.to_string();
    push_str(&mut m, t.as_str());
    string_from_chars(m.as_slice())
}

/// Records the delete of the device song `name`: deleted, or an error
/// "删除 <name> 失败: <error>".
pub fn record_delete(result: &mut SyncResult, name: &String, outcome: Result<(), CyrioError>)
    ensures
        final(result).added == old(result).added && final(result).skipped == old(result).skipped,
        match outcome {
            Ok(()) => final(result).deleted@ == old(result).deleted@.push(*name)
                && final(result).errors == old(result).errors,
            Err(e) => final(result).deleted == old(result).deleted
                && final(result).errors@.len() == old(result).errors@.len() + 1
                && final(result).errors@.drop_last() == old(result).errors@
                && final(result).errors@.last()@ == sync_error_message("删除"@, name@, e),
        },
{
    match outcome {
        Ok(()) => result.deleted.push(name.clone()),
        Err(e) => {
            let m = sync_error("删除", name.as_str(), &e);
            result.errors.push(m);
        },
    }
}

/// Records the upload of the local song `name`: added, or an error
/// "上传 <name> 失败: <error>".
pub fn record_upload(result: &mut SyncResult, name: &String, outcome: &Result<u32, CyrioError>)
    ensures
        final(result).deleted == old(result).deleted && final(result).skipped == old(result).skipped,
        match outcome {
            Ok(_) => final(result).added@ == old(result).added@.push(*name)
                && final(result).errors == old(result).errors,
            Err(e) => final(result).added == old(result).added
                && final(result).errors@.len() == old(result).errors@.len() + 1
                && final(result).errors@.drop_last() == old(result).errors@
                && final(result).errors@.last()@ == sync_error_message("上传"@, name@, *e),
        },
{
    match outcome {
        Ok(_) => result.added.push(name.clone()),
        Err(e) => {
            let m = sync_error("上传", name.as_str(), e);
            result.errors.push(m);
        },
    }
}

/// Records adding the uploaded song `name` to the rule's playlist: nothing
/// when it worked, else an error "加入歌单 <name> 失败: <error>".
pub fn record_playlist_add(result: &mut SyncResult, name: &String, outcome: Result<(), CyrioError>)
    ensures
        final(result).added == old(result).added && final(result).deleted == old(result).deleted,
        final(result).skipped == old(result).skipped,
        match outcome {
            Ok(()) => final(result).errors == old(result).errors,
            Err(e) => final(result).errors@.len() == old(result).errors@.len() + 1
                && final(result).errors@.drop_last() == old(result).errors@
                && final(result).errors@.last()@ == sync_error_message("加入歌单"@, name@, e),
        },
{
    match outcome {
        Ok(()) => {},
        Err(e) => {
            let m = sync_error("加入歌单", name.as_str(), &e);
            result.errors.push(m);
        },
    }
}

} // verus!
