//! The diff engine: given the source's path-to-digest mapping and the
//! destination's digest set, compute the copy set — one task per source file
//! whose content is absent from the destination, whatever name it has there.
//!
//! This is a pure function of two completed fingerprints; it never touches
//! the filesystem. Its output order follows the source fingerprint's entry
//! order and is the submission order the report later promises.

use vstd::prelude::*;

use crate::fingerprint::DirectoryFingerprint;

verus! {

/// A planned, not-yet-executed copy of one file: where to read and where to
/// write. The destination path is the destination directory joined with the
/// source file's base name.
#[derive(Debug, Clone)]
pub struct CopyTask {
    pub source_path: String,
    pub destination_path: String,
}

/// A copy task reduced to its two paths.
pub open spec fn task_view(t: CopyTask) -> (Seq<char>, Seq<char>) {
    (t.source_path@, t.destination_path@)
}

/// The base name of a path: what follows the last path separator, or the
/// whole path if it has none.
pub open spec fn base_name(p: Seq<char>) -> Seq<char>
    decreases p.len(),
{
    if p.len() == 0 {
        p
    } else if p.last() == '/' {
        Seq::empty()
    } else {
        base_name(p.drop_last()).push(p.last())
    }
}

/// A directory path joined with a file name: a separator is put between the
/// two unless the directory already ends with one or is empty.
pub open spec fn join_path(dir: Seq<char>, name: Seq<char>) -> Seq<char> {
    if dir.len() == 0 {
        name
    } else if dir.last() == '/' {
        dir + name
    } else {
        dir + "/"@ + name
    }
}

/// The copy set an entry sequence induces against a destination digest set:
/// one planned pair of paths per entry whose digest is absent, in entry
/// order.
pub open spec fn plan_of_entries(
    entries: Seq<(Seq<char>, Seq<u8>)>,
    destination_digests: Set<Seq<u8>>,
    destination_dir: Seq<char>,
) -> Seq<(Seq<char>, Seq<char>)> {
    entries.filter(|e: (Seq<char>, Seq<u8>)| !destination_digests.contains(e.1)).map_values(
        |e: (Seq<char>, Seq<u8>)| (e.0, join_path(destination_dir, base_name(e.0))),
    )
}

/// If a path's suffix from position `cut` holds no separator and `cut` is
/// either the start or just after a separator, that suffix is the base name.
proof fn lemma_base_name_subrange(p: Seq<char>, cut: int)
    requires
        0 <= cut <= p.len(),
        cut == 0 || p[cut - 1] == '/',
        forall|k: int| cut <= k < p.len() ==> p[k] != '/',
    ensures
        base_name(p) == p.subrange(cut, p.len() as int),
    decreases p.len(),
{
    if cut == p.len() {
        if p.len() == 0 {
            assert(base_name(p) =~= p.subrange(cut, p.len() as int));
        } else {
            assert(p.last() == '/');
            assert(base_name(p) =~= p.subrange(cut, p.len() as int));
        }
    } else {
        assert(p[p.len() - 1] != '/');
        let q = p.drop_last();
        assert(q =~= p.subrange(0, p.len() - 1));
        lemma_base_name_subrange(q, cut);
        assert(q.subrange(cut, q.len() as int).push(p.last()) =~= p.subrange(
            cut,
            p.len() as int,
        ));
    }
}

/// The base name of a path, as the diff derives destination paths from it.
pub fn base_name_of(p: &String) -> (r: String)
    ensures
        r@ == base_name(p@),
{
    let s = p.as_str();
    let n = s.unicode_len();
    let mut cut: usize = 0;
    let mut i: usize = 0;
    while i < n
        invariant
            n == s@.len(),
            i <= n,
            cut <= i,
            cut == 0 || s@[cut - 1] == '/',
            forall|k: int| cut <= k < i ==> s@[k] != '/',
        decreases n - i,
    {
        if s.get_char(i) == '/' {
            cut = i + 1;
        }
        i = i + 1;
    }
    let tail = s.substring_char(cut, n);
    proof {
        lemma_base_name_subrange(s@, cut as int);
    }
    String::from_str(tail)
}

/// A directory path joined with a file name, as the filesystem's path join
/// does it for a relative name.
pub fn join_dir(dir: &String, name: &String) -> (r: String)
    ensures
        r@ == join_path(dir@, name@),
{
    let d = dir.as_str();
    let n = d.unicode_len();
    let mut s = String::new();
    s.append(d);
    if n == 0 {
        s.append(name.as_str());
        proof {
            assert(s@ =~= name@);
        }
    } else if d.get_char(n - 1) == '/' {
        s.append(name.as_str());
    } else {
        s.append("/");
        s.append(name.as_str());
    }
    s
}

/// Each element of a filtered sequence is an element of the original.
proof fn lemma_filter_element_source<A>(s: Seq<A>, pred: spec_fn(A) -> bool, k: int)
    requires
        0 <= k < s.filter(pred).len(),
    ensures
        exists|i: int| 0 <= i < s.len() && s[i] == s.filter(pred)[k],
    decreases s.len(),
{
    reveal(Seq::filter);
    if s.len() > 0 {
        let sub = s.drop_last().filter(pred);
        if pred(s.last()) && k == sub.len() {
            assert(s[s.len() - 1] == s.filter(pred)[k]);
        } else {
            lemma_filter_element_source(s.drop_last(), pred, k);
            let i = choose|i: int| 0 <= i < s.drop_last().len() && s.drop_last()[i] == sub[k];
            assert(s[i] == s.filter(pred)[k]);
        }
    }
}

/// Compute the copy set: a task for each source file whose digest is not in
/// the destination's digest set — and for no other — in the source
/// fingerprint's entry order. This order is the submission order.
pub fn diff(
    source: &DirectoryFingerprint,
    destination: &DirectoryFingerprint,
    destination_dir: &String,
) -> (tasks: Vec<CopyTask>)
    requires
        source.wf(),
        destination.wf(),
    ensures
        tasks@.map_values(|t: CopyTask| task_view(t)) == plan_of_entries(
            source.entries(),
            destination.digest_set(),
            destination_dir@,
        ),
{
    let ghost destination_digests = destination.digest_set();
    let ghost dir_view = destination_dir@;
    let ghost pred = |e: (Seq<char>, Seq<u8>)| !destination_digests.contains(e.1);
    let ghost to_pair = |e: (Seq<char>, Seq<u8>)| (e.0, join_path(dir_view, base_name(e.0)));
    let mut tasks: Vec<CopyTask> = Vec::new();
    let n = source.len();
    let mut i: usize = 0;
    while i < n
        invariant
            source.wf(),
            destination.wf(),
            n == source.entries().len(),
            i <= n,
            destination_digests == destination.digest_set(),
            dir_view == destination_dir@,
            pred == (|e: (Seq<char>, Seq<u8>)| !destination_digests.contains(e.1)),
            to_pair == (|e: (Seq<char>, Seq<u8>)| (e.0, join_path(dir_view, base_name(e.0)))),
            tasks@.map_values(|t: CopyTask| task_view(t)) == source.entries().take(
                i as int,
            ).filter(pred).map_values(to_pair),
        decreases n - i,
    {
        let ghost prefix = source.entries().take(i as int);
        let digest = source.digest_at(i);
        let ghost entry = source.entries()[i as int];
        if !destination.contains_digest(digest) {
            let src_path = source.path_at(i);
            let name = base_name_of(src_path);
            let dst_path = join_dir(destination_dir, &name);
            let task = CopyTask { source_path: src_path.clone(), destination_path: dst_path };
            proof {
                assert(task_view(task) == to_pair(entry));
            }
            tasks.push(task);
            proof {
                assert(tasks@.map_values(|t: CopyTask| task_view(t)) =~= prefix.filter(
                    pred,
                ).map_values(to_pair).push(to_pair(entry)));
            }
        }
        proof {
            prefix.lemma_filter_push(entry, pred);
            assert(source.entries().take(i + 1 as int) =~= prefix.push(entry));
            if pred(entry) {
                prefix.filter(pred).lemma_push_map_commute(to_pair, entry);
            }
        }
        i = i + 1;
    }
    proof {
        assert(source.entries().take(n as int) =~= source.entries());
    }
    tasks
}

/// A planned pair of paths is justified by a source entry: some source file
/// has that path, its digest is absent from the destination's digest set,
/// and the planned destination is the destination directory joined with the
/// file's base name.
pub open spec fn plan_pair_justified(
    entries: Seq<(Seq<char>, Seq<u8>)>,
    destination_digests: Set<Seq<u8>>,
    destination_dir: Seq<char>,
    pair: (Seq<char>, Seq<char>),
) -> bool {
    exists|i: int|
        {
            &&& 0 <= i < entries.len()
            &&& pair.0 == (#[trigger] entries[i]).0
            &&& !destination_digests.contains(entries[i].1)
            &&& pair.1 == join_path(destination_dir, base_name(entries[i].0))
        }
}

/// Some planned copy reads from this source path.
pub open spec fn path_planned(plan: Seq<(Seq<char>, Seq<char>)>, path: Seq<char>) -> bool {
    exists|k: int| 0 <= k < plan.len() && (#[trigger] plan[k]).0 == path
}

/// Diff correctness: the copy set holds a planned copy for a source path
/// exactly when that path's digest is absent from the destination's digest
/// set — a digest already present under any name is never copied. Each
/// planned copy is justified by a source entry whose digest is absent.
pub proof fn lemma_diff_correctness(
    source: DirectoryFingerprint,
    destination: DirectoryFingerprint,
    destination_dir: Seq<char>,
)
    ensures
        forall|k: int|
            0 <= k < plan_of_entries(
                source.entries(),
                destination.digest_set(),
                destination_dir,
            ).len() ==> plan_pair_justified(
                source.entries(),
                destination.digest_set(),
                destination_dir,
                #[trigger] plan_of_entries(
                    source.entries(),
                    destination.digest_set(),
                    destination_dir,
                )[k],
            ),
        forall|i: int|
            0 <= i < source.entries().len() && !destination.digest_set().contains(
                (#[trigger] source.entries()[i]).1,
            ) ==> path_planned(
                plan_of_entries(source.entries(), destination.digest_set(), destination_dir),
                source.entries()[i].0,
            ),
{
    let entries = source.entries();
    let dset = destination.digest_set();
    let pred = |e: (Seq<char>, Seq<u8>)| !dset.contains(e.1);
    let to_pair = |e: (Seq<char>, Seq<u8>)| (e.0, join_path(destination_dir, base_name(e.0)));
    let filtered = entries.filter(pred);
    let plan = plan_of_entries(entries, dset, destination_dir);
    assert(plan == filtered.map_values(to_pair));
    assert forall|k: int| 0 <= k < plan.len() implies plan_pair_justified(
        entries,
        dset,
        destination_dir,
        #[trigger] plan[k],
    ) by {
        assert(plan[k] == to_pair(filtered[k]));
        entries.lemma_filter_pred(pred, k);
        lemma_filter_element_source(entries, pred, k);
        let i = choose|i: int| 0 <= i < entries.len() && entries[i] == filtered[k];
        assert({
            &&& 0 <= i < entries.len()
            &&& plan[k].0 == entries[i].0
            &&& !dset.contains(entries[i].1)
            &&& plan[k].1 == join_path(destination_dir, base_name(entries[i].0))
        });
    }
    assert forall|i: int|
        0 <= i < entries.len() && !dset.contains((#[trigger] entries[i]).1) implies path_planned(
        plan,
        entries[i].0,
    ) by {
        entries.lemma_filter_contains(pred, i);
        let k = choose|k: int| 0 <= k < filtered.len() && filtered[k] == entries[i];
        assert(plan[k] == to_pair(filtered[k]));
        assert(0 <= k < plan.len() && plan[k].0 == entries[i].0);
    }
}

} // verus!

