//! Enumeration of every regular file under a staging directory.
//!
//! The filesystem snapshot is handed to the library as a tree of plain
//! values; the surrounding application materializes it by reading the
//! real directory once.  Entries the reader could not open are marked
//! skipped and excluded; a directory it could not list, or a file whose
//! read failed midway, poisons the whole walk, since a partial manifest
//! would silently drop files from the deployed site.

use vstd::prelude::*;
use crate::content::{descriptor_for, hash_content, payload_decodes, FileDescriptor};
use crate::errors::ImportError;
use crate::bytes::{append_bytes, copy_bytes};

verus! {

/// One node of the staged directory snapshot.
pub enum FsNode {
    /// A regular file whose raw bytes were read completely.
    File { content: Vec<u8> },
    /// A directory whose listing was read completely.
    Dir { entries: Vec<FsEntry> },
    /// A directory whose listing could not be read: fatal for the walk.
    UnreadableDir,
    /// A file that was opened but whose read failed: fatal for the walk.
    UnreadableFile,
    /// A non-regular or unopenable entry: logged and excluded.
    Skipped,
}

/// A named entry of a directory listing, in the order the filesystem
/// reported it.
pub struct FsEntry {
    pub name: Vec<u8>,
    pub node: FsNode,
}

/// The slash-joined path of an entry named `name` under `prefix`.
pub open spec fn entry_path(prefix: Seq<u8>, name: Seq<u8>) -> Seq<u8> {
    if prefix.len() == 0 {
        name
    } else {
        prefix + seq![47u8] + name
    }
}

/// Whether the whole subtree at `node` was read completely, so that the
/// walk may succeed on it.
pub open spec fn subtree_readable(node: FsNode) -> bool
    decreases node, 1int,
{
    match node {
        FsNode::File { .. } => true,
        FsNode::Dir { entries } => entries_readable(entries@),
        FsNode::UnreadableDir => false,
        FsNode::UnreadableFile => false,
        FsNode::Skipped => true,
    }
}

/// Whether every entry of a listing has a completely readable subtree.
pub open spec fn entries_readable(s: Seq<FsEntry>) -> bool
    decreases s, 0int,
{
    s.len() == 0 || (subtree_readable(s[0].node) && entries_readable(s.drop_first()))
}

/// The regular files under `node` when it stands at `path`: each as a
/// pair of its slash-joined relative path and its raw content, in
/// listing order.
pub open spec fn files_under(path: Seq<u8>, node: FsNode) -> Seq<(Seq<u8>, Seq<u8>)>
    decreases node, 1int,
{
    match node {
        FsNode::File { content } => seq![(path, content@)],
        FsNode::Dir { entries } => files_in_entries(path, entries@),
        FsNode::UnreadableDir => Seq::<(Seq<u8>, Seq<u8>)>::empty(),
        FsNode::UnreadableFile => Seq::<(Seq<u8>, Seq<u8>)>::empty(),
        FsNode::Skipped => Seq::<(Seq<u8>, Seq<u8>)>::empty(),
    }
}

/// The regular files under a listing whose directory stands at `prefix`.
pub open spec fn files_in_entries(prefix: Seq<u8>, s: Seq<FsEntry>) -> Seq<(Seq<u8>, Seq<u8>)>
    decreases s, 0int,
{
    if s.len() == 0 {
        Seq::<(Seq<u8>, Seq<u8>)>::empty()
    } else {
        files_under(entry_path(prefix, s[0].name@), s[0].node) + files_in_entries(
            prefix,
            s.drop_first(),
        )
    }
}

/// That the descriptors `ds` describe exactly the files `rs`, in order.
pub open spec fn match_records(ds: Seq<FileDescriptor>, rs: Seq<(Seq<u8>, Seq<u8>)>) -> bool {
    &&& ds.len() == rs.len()
    &&& forall|i: int|
        0 <= i < ds.len() ==> descriptor_for(#[trigger] ds[i], rs[i].0, rs[i].1)
    &&& forall|i: int| 0 <= i < ds.len() ==> payload_decodes(#[trigger] ds[i], rs[i].1)
}

proof fn lemma_entries_readable_push(s: Seq<FsEntry>, e: FsEntry)
    ensures
        entries_readable(s.push(e)) <==> (entries_readable(s) && subtree_readable(e.node)),
    decreases s.len(),
{
    if s.len() == 0 {
        assert(s.push(e)[0] == e);
        assert(s.push(e).drop_first() =~= Seq::<FsEntry>::empty());
        assert(entries_readable(Seq::<FsEntry>::empty()));
        assert(entries_readable(s));
        assert(entries_readable(s.push(e)) <==> subtree_readable(e.node));
    } else {
        lemma_entries_readable_push(s.drop_first(), e);
        assert(s.push(e)[0] == s[0]);
        assert(s.push(e).drop_first() =~= s.drop_first().push(e));
        assert(entries_readable(s.push(e)) <==> (subtree_readable(s[0].node)
            && entries_readable(s.drop_first().push(e))));
    }
}

proof fn lemma_files_in_entries_push(prefix: Seq<u8>, s: Seq<FsEntry>, e: FsEntry)
    ensures
        files_in_entries(prefix, s.push(e)) == files_in_entries(prefix, s) + files_under(
            entry_path(prefix, e.name@),
            e.node,
        ),
    decreases s.len(),
{
    if s.len() == 0 {
        assert(s.push(e)[0] == e);
        assert(s.push(e).drop_first() =~= Seq::<FsEntry>::empty());
        assert(files_in_entries(prefix, Seq::<FsEntry>::empty())
            == Seq::<(Seq<u8>, Seq<u8>)>::empty());
        assert(files_in_entries(prefix, s) == Seq::<(Seq<u8>, Seq<u8>)>::empty());
        assert(files_in_entries(prefix, s.push(e)) == files_under(entry_path(prefix, e.name@),
            e.node,
        ) + files_in_entries(prefix, s.push(e).drop_first()));
        assert(files_in_entries(prefix, s.push(e)) =~= files_in_entries(prefix, s) + files_under(
            entry_path(prefix, e.name@),
            e.node,
        ));
    } else {
        lemma_files_in_entries_push(prefix, s.drop_first(), e);
        assert(s.push(e)[0] == s[0]);
        assert(s.push(e).drop_first() =~= s.drop_first().push(e));
        assert(files_in_entries(prefix, s.push(e)) =~= files_in_entries(prefix, s) + files_under(
            entry_path(prefix, e.name@),
            e.node,
        ));
    }
}

/// Builds the slash-joined path of the entry `name` under `prefix`.
fn build_entry_path(prefix: &Vec<u8>, name: &Vec<u8>) -> (r: Vec<u8>)
    ensures
        r@ == entry_path(prefix@, name@),
{
    let mut out = copy_bytes(prefix);
    if prefix.len() > 0 {
        out.push(47u8);
        proof {
            assert(prefix@.push(47u8) =~= prefix@ + seq![47u8]);
        }
    }
    append_bytes(&mut out, name);
    out
}

/// Collects a descriptor for every regular file under `node`, which
/// stands at `path`; fails with `CollectionFailed` exactly where some
/// part of the subtree was not read completely.
pub fn collect_from_node(path: &Vec<u8>, node: &FsNode) -> (r: Result<
    Vec<FileDescriptor>,
    ImportError,
>)
    ensures
        match r {
            Ok(files) => subtree_readable(*node) && match_records(
                files@,
                files_under(path@, *node),
            ),
            Err(e) => !subtree_readable(*node) && e == ImportError::CollectionFailed(
                None::<String>,
            ),
        },
    decreases *node,
{
    match node {
        FsNode::File { content } => {
            let d = hash_content(copy_bytes(path), copy_bytes(content));
            let mut files: Vec<FileDescriptor> = Vec::new();
            files.push(d);
            Ok(files)
        },
        FsNode::Dir { entries } => {
            let mut files: Vec<FileDescriptor> = Vec::new();
            let mut i: usize = 0;
            while i < entries.len()
                invariant
                    i <= entries@.len(),
                    entries_readable(entries@.take(i as int)),
                    match_records(files@, files_in_entries(path@, entries@.take(i as int))),
                    *node == (FsNode::Dir { entries: *entries }),
                decreases entries@.len() - i,
            {
                let child_path = build_entry_path(path, &entries[i].name);
                proof {
                    assert(decreases_to!(*node => node->Dir_entries));
                    assert(decreases_to!(node->Dir_entries => node->Dir_entries@[i as int]));
                    assert(decreases_to!(node->Dir_entries@[i as int]
                        => node->Dir_entries@[i as int].node));
                    assert(decreases_to!(*node => entries@[i as int].node));
                }
                match collect_from_node(&child_path, &entries[i].node) {
                    Ok(mut child_files) => {
                        proof {
                            lemma_entries_readable_push(
                                entries@.take(i as int),
                                entries@[i as int],
                            );
                            lemma_files_in_entries_push(
                                path@,
                                entries@.take(i as int),
                                entries@[i as int],
                            );
                            assert(entries@.take(i + 1 as int) =~= entries@.take(i as int).push(
                                entries@[i as int],
                            ));
                        }
                        files.append(&mut child_files);
                    },
                    Err(e) => {
                        proof {
                            lemma_entries_not_readable(entries@, i as int);
                        }
                        return Err(e);
                    },
                }
                i = i + 1;
            }
            proof {
                assert(entries@.take(entries@.len() as int) =~= entries@);
            }
            Ok(files)
        },
        FsNode::UnreadableDir => Err(ImportError::CollectionFailed(None)),
        FsNode::UnreadableFile => Err(ImportError::CollectionFailed(None)),
        FsNode::Skipped => Ok(Vec::new()),
    }
}

proof fn lemma_entries_not_readable(s: Seq<FsEntry>, i: int)
    requires
        0 <= i < s.len(),
        !subtree_readable(s[i].node),
    ensures
        !entries_readable(s),
    decreases s.len(),
{
    if i > 0 {
        lemma_entries_not_readable(s.drop_first(), i - 1);
    }
}

/// A name a filesystem listing can actually report: nonempty, without
/// a path separator.
pub open spec fn valid_name(name: Seq<u8>) -> bool {
    name.len() > 0 && forall|j: int| 0 <= j < name.len() ==> name[j] != 47u8
}

/// A well-formed snapshot listing: every entry has a valid name, and
/// every subdirectory is well formed in turn.
pub open spec fn wf_entries(s: Seq<FsEntry>) -> bool
    decreases s, 0int,
{
    s.len() == 0 || (wf_entry(s[0]) && wf_entries(s.drop_first()))
}

/// A well-formed snapshot entry.
pub open spec fn wf_entry(e: FsEntry) -> bool
    decreases e, 1int,
{
    valid_name(e.name@) && match e.node {
        FsNode::Dir { entries } => wf_entries(entries@),
        _ => true,
    }
}

/// That a regular file with relative path `rel` and raw content `raw`
/// is reachable from the listing `s`: some entry provides it, either
/// directly or inside a subdirectory.
pub open spec fn has_file(s: Seq<FsEntry>, rel: Seq<u8>, raw: Seq<u8>) -> bool
    decreases s, 0int,
{
    exists|i: int| #![trigger s[i]] 0 <= i < s.len() && entry_provides(s[i], rel, raw)
}

/// That the entry `e` provides the file `rel` with content `raw`.
pub open spec fn entry_provides(e: FsEntry, rel: Seq<u8>, raw: Seq<u8>) -> bool
    decreases e, 2int,
{
    match e.node {
        FsNode::File { content } => rel == e.name@ && raw == content@,
        FsNode::Dir { entries } => dir_provides(entries@, e.name@, rel, raw),
        FsNode::UnreadableDir => false,
        FsNode::UnreadableFile => false,
        FsNode::Skipped => false,
    }
}

/// That a directory named `name`, with listing `entries`, provides the
/// file `rel` with content `raw`: `rel` descends through the name.
pub open spec fn dir_provides(
    entries: Seq<FsEntry>,
    name: Seq<u8>,
    rel: Seq<u8>,
    raw: Seq<u8>,
) -> bool
    decreases entries, 1int,
{
    &&& rel.len() > name.len()
    &&& rel.take(name.len() as int) == name
    &&& rel[name.len() as int] == 47u8
    &&& has_file(entries, rel.skip(name.len() as int + 1), raw)
}

proof fn lemma_contains_concat<A>(a: Seq<A>, b: Seq<A>, x: A)
    ensures
        (a + b).contains(x) <==> (a.contains(x) || b.contains(x)),
{
    if (a + b).contains(x) {
        let i = choose|i: int| 0 <= i < (a + b).len() && (a + b)[i] == x;
        if i < a.len() {
            assert(a[i] == x);
        } else {
            assert(b[i - a.len()] == x);
        }
    }
    if a.contains(x) {
        let i = choose|i: int| 0 <= i < a.len() && a[i] == x;
        assert((a + b)[i] == x);
    }
    if b.contains(x) {
        let i = choose|i: int| 0 <= i < b.len() && b[i] == x;
        assert((a + b)[a.len() + i] == x);
    }
}

proof fn lemma_has_file_split(s: Seq<FsEntry>, rel: Seq<u8>, raw: Seq<u8>)
    requires
        s.len() > 0,
    ensures
        has_file(s, rel, raw) <==> (entry_provides(s[0], rel, raw) || has_file(
            s.drop_first(),
            rel,
            raw,
        )),
{
    if has_file(s, rel, raw) {
        let i = choose|i: int|
            #![trigger s[i]]
            0 <= i < s.len() && entry_provides(s[i], rel, raw);
        if i > 0 {
            assert(s.drop_first()[i - 1] == s[i]);
            assert(has_file(s.drop_first(), rel, raw));
        }
    }
    if entry_provides(s[0], rel, raw) {
        assert(has_file(s, rel, raw));
    }
    if has_file(s.drop_first(), rel, raw) {
        let i = choose|i: int|
            #![trigger s.drop_first()[i]]
            0 <= i < s.drop_first().len() && entry_provides(s.drop_first()[i], rel, raw);
        assert(s.drop_first()[i] == s[i + 1]);
        assert(has_file(s, rel, raw));
    }
}

proof fn lemma_entry_path_assoc(prefix: Seq<u8>, name: Seq<u8>, rest: Seq<u8>)
    requires
        name.len() > 0,
    ensures
        entry_path(entry_path(prefix, name), rest) == entry_path(prefix, name + seq![47u8] + rest),
{
    if prefix.len() == 0 {
        assert(entry_path(entry_path(prefix, name), rest) =~= entry_path(
            prefix,
            name + seq![47u8] + rest,
        ));
    } else {
        assert(entry_path(entry_path(prefix, name), rest) =~= entry_path(
            prefix,
            name + seq![47u8] + rest,
        ));
    }
}

proof fn lemma_entries_membership(prefix: Seq<u8>, s: Seq<FsEntry>, q: Seq<u8>, raw: Seq<u8>)
    requires
        wf_entries(s),
    ensures
        files_in_entries(prefix, s).contains((q, raw)) <==> exists|rel: Seq<u8>|
            q == entry_path(prefix, rel) && #[trigger] has_file(s, rel, raw),
    decreases s, 0int,
{
    if s.len() == 0 {
        assert(!files_in_entries(prefix, s).contains((q, raw)));
    } else {
        let head_files = files_under(entry_path(prefix, s[0].name@), s[0].node);
        let tail_files = files_in_entries(prefix, s.drop_first());
        lemma_contains_concat(head_files, tail_files, (q, raw));
        lemma_entry_membership(prefix, s[0], q, raw);
        lemma_entries_membership(prefix, s.drop_first(), q, raw);
        if files_in_entries(prefix, s).contains((q, raw)) {
            if head_files.contains((q, raw)) {
                let rel = choose|rel: Seq<u8>|
                    q == entry_path(prefix, rel) && #[trigger] entry_provides(s[0], rel, raw);
                lemma_has_file_split(s, rel, raw);
                assert(has_file(s, rel, raw));
            } else {
                let rel = choose|rel: Seq<u8>|
                    q == entry_path(prefix, rel) && #[trigger] has_file(
                        s.drop_first(),
                        rel,
                        raw,
                    );
                lemma_has_file_split(s, rel, raw);
                assert(has_file(s, rel, raw));
            }
        }
        if exists|rel: Seq<u8>| q == entry_path(prefix, rel) && #[trigger] has_file(s, rel, raw) {
            let rel = choose|rel: Seq<u8>|
                q == entry_path(prefix, rel) && #[trigger] has_file(s, rel, raw);
            lemma_has_file_split(s, rel, raw);
            if entry_provides(s[0], rel, raw) {
                assert(head_files.contains((q, raw)));
            } else {
                assert(has_file(s.drop_first(), rel, raw));
                assert(tail_files.contains((q, raw)));
            }
        }
    }
}

proof fn lemma_entry_membership(prefix: Seq<u8>, e: FsEntry, q: Seq<u8>, raw: Seq<u8>)
    requires
        wf_entry(e),
    ensures
        files_under(entry_path(prefix, e.name@), e.node).contains((q, raw)) <==> exists|
            rel: Seq<u8>,
        |
            q == entry_path(prefix, rel) && #[trigger] entry_provides(e, rel, raw),
    decreases e, 3int,
{
    let ep = entry_path(prefix, e.name@);
    match e.node {
        FsNode::File { content } => {
            if files_under(ep, e.node).contains((q, raw)) {
                assert(files_under(ep, e.node)[0] == (ep, content@));
                assert(q == ep && raw == content@);
                assert(entry_provides(e, e.name@, raw));
            }
            if exists|rel: Seq<u8>|
                q == entry_path(prefix, rel) && #[trigger] entry_provides(e, rel, raw) {
                let rel = choose|rel: Seq<u8>|
                    q == entry_path(prefix, rel) && #[trigger] entry_provides(e, rel, raw);
                assert(rel == e.name@ && raw == content@);
                assert(files_under(ep, e.node)[0] == (q, raw));
            }
        },
        FsNode::Dir { entries } => {
            lemma_entries_membership(ep, entries@, q, raw);
            let nlen = e.name@.len() as int;
            if files_under(ep, e.node).contains((q, raw)) {
                let rel2 = choose|rel2: Seq<u8>|
                    q == entry_path(ep, rel2) && #[trigger] has_file(entries@, rel2, raw);
                lemma_entry_path_assoc(prefix, e.name@, rel2);
                let rel = e.name@ + seq![47u8] + rel2;
                assert(rel.take(nlen) =~= e.name@);
                assert(rel[nlen] == 47u8);
                assert(rel.skip(nlen + 1) =~= rel2);
                assert(dir_provides(entries@, e.name@, rel, raw));
                assert(entry_provides(e, rel, raw));
                assert(q == entry_path(prefix, rel));
            }
            if exists|rel: Seq<u8>|
                q == entry_path(prefix, rel) && #[trigger] entry_provides(e, rel, raw) {
                let rel = choose|rel: Seq<u8>|
                    q == entry_path(prefix, rel) && #[trigger] entry_provides(e, rel, raw);
                assert(dir_provides(entries@, e.name@, rel, raw));
                let rest = rel.skip(nlen + 1);
                assert(has_file(entries@, rest, raw));
                assert(rel =~= e.name@ + seq![47u8] + rest);
                lemma_entry_path_assoc(prefix, e.name@, rest);
                assert(q == entry_path(ep, rest));
                assert(files_under(ep, e.node).contains((q, raw)));
            }
        },
        FsNode::UnreadableDir => {},
        FsNode::UnreadableFile => {},
        FsNode::Skipped => {},
    }
}

/// That sibling names are pairwise distinct in one listing.
pub open spec fn level_distinct(s: Seq<FsEntry>) -> bool {
    forall|i: int, j: int| 0 <= i < j < s.len() ==> s[i].name@ != s[j].name@
}

/// That sibling names are pairwise distinct at every level of a
/// listing, as a real filesystem guarantees.
pub open spec fn distinct_names(s: Seq<FsEntry>) -> bool
    decreases s, 1int,
{
    level_distinct(s) && forall|i: int| #![trigger s[i]] 0 <= i < s.len() ==> entry_distinct(s[i])
}

/// That an entry's subtree has pairwise distinct sibling names.
pub open spec fn entry_distinct(e: FsEntry) -> bool
    decreases e, 2int,
{
    match e.node {
        FsNode::Dir { entries } => distinct_names(entries@),
        _ => true,
    }
}

/// That `q` is `ep` itself or descends below it through a separator.
pub open spec fn extends_path(q: Seq<u8>, ep: Seq<u8>) -> bool {
    q == ep || (q.len() > ep.len() && q.take(ep.len() as int) == ep && q[ep.len() as int] == 47u8)
}

/// That every walked path in `files` extends `ep`.
pub open spec fn all_extend(files: Seq<(Seq<u8>, Seq<u8>)>, ep: Seq<u8>) -> bool {
    forall|k: int| #![trigger files[k]] 0 <= k < files.len() ==> extends_path(files[k].0, ep)
}

/// That no walked path in `files` extends `ep`.
pub open spec fn none_extend(files: Seq<(Seq<u8>, Seq<u8>)>, ep: Seq<u8>) -> bool {
    forall|k: int| #![trigger files[k]] 0 <= k < files.len() ==> !extends_path(files[k].0, ep)
}

/// That every walked path in `files` lies strictly below `prefix`.
pub open spec fn all_below(files: Seq<(Seq<u8>, Seq<u8>)>, prefix: Seq<u8>) -> bool {
    forall|k: int| #![trigger files[k]]
        0 <= k < files.len() ==> (files[k].0.len() > prefix.len() && (prefix.len() == 0 || (
        files[k].0.take(prefix.len() as int) == prefix && files[k].0[prefix.len() as int]
            == 47u8)))
}

/// That the walked paths are pairwise distinct: no file appears twice.
pub open spec fn distinct_paths(files: Seq<(Seq<u8>, Seq<u8>)>) -> bool {
    forall|i: int, j: int| 0 <= i < j < files.len() ==> files[i].0 != files[j].0
}

proof fn lemma_paths_extend_entry(prefix: Seq<u8>, e: FsEntry)
    requires
        wf_entry(e),
    ensures
        all_extend(files_under(entry_path(prefix, e.name@), e.node), entry_path(prefix, e.name@)),
    decreases e, 3int,
{
    let ep = entry_path(prefix, e.name@);
    assert(valid_name(e.name@));
    match e.node {
        FsNode::Dir { entries } => {
            assert(wf_entries(entries@));
            lemma_paths_below_entries(ep, entries@);
            let files = files_under(ep, e.node);
            assert(ep.len() > 0);
            assert forall|k: int| 0 <= k < files.len() implies extends_path(
                #[trigger] files[k].0,
                ep,
            ) by {
                assert(files[k] == files_in_entries(ep, entries@)[k]);
            }
        },
        _ => {},
    }
}

proof fn lemma_all_below_concat(a: Seq<(Seq<u8>, Seq<u8>)>, b: Seq<(Seq<u8>, Seq<u8>)>, prefix: Seq<u8>)
    requires
        all_below(a, prefix),
        all_below(b, prefix),
    ensures
        all_below(a + b, prefix),
{
    assert forall|k: int|
        0 <= k < (a + b).len() implies ((a + b)[k]).0.len() > prefix.len() && (prefix.len() == 0
        || ((a + b)[k].0.take(prefix.len() as int) == prefix && (a + b)[k].0[prefix.len() as int]
        == 47u8)) by {
        if k < a.len() {
            assert((a + b)[k] == a[k]);
            assert(a[k].0.len() > prefix.len() && (prefix.len() == 0 || (a[k].0.take(
                prefix.len() as int,
            ) == prefix && a[k].0[prefix.len() as int] == 47u8)));
        } else {
            assert((a + b)[k] == b[k - a.len()]);
            assert(b[k - a.len()].0.len() > prefix.len() && (prefix.len() == 0 || (b[k
                - a.len()].0.take(prefix.len() as int) == prefix && b[k - a.len()].0[prefix.len()
                as int] == 47u8)));
        }
    }
}

proof fn lemma_paths_below_entries(prefix: Seq<u8>, s: Seq<FsEntry>)
    requires
        wf_entries(s),
    ensures
        all_below(files_in_entries(prefix, s), prefix),
    decreases s, 0int,
{
    if s.len() > 0 {
        let ep0 = entry_path(prefix, s[0].name@);
        let head = files_under(ep0, s[0].node);
        let tail = files_in_entries(prefix, s.drop_first());
        assert(wf_entry(s[0]) && wf_entries(s.drop_first()));
        lemma_paths_below_entry(prefix, s[0]);
        lemma_paths_below_entries(prefix, s.drop_first());
        let files = files_in_entries(prefix, s);
        assert(files == head + tail);
        assert(all_below(head, prefix));
        assert(all_below(tail, prefix));
        lemma_all_below_concat(head, tail, prefix);
        assert(all_below(files, prefix));
    }
}

proof fn lemma_paths_below_entry(prefix: Seq<u8>, e: FsEntry)
    requires
        wf_entry(e),
    ensures
        all_below(files_under(entry_path(prefix, e.name@), e.node), prefix),
    decreases e, 1int,
{
    let ep = entry_path(prefix, e.name@);
    assert(valid_name(e.name@));
    match e.node {
        FsNode::File { content } => {
            let files = files_under(ep, e.node);
            assert forall|k: int|
                0 <= k < files.len() implies (#[trigger] files[k]).0.len() > prefix.len() && (
            prefix.len() == 0 || (files[k].0.take(prefix.len() as int) == prefix
                && files[k].0[prefix.len() as int] == 47u8)) by {
                assert(files[k].0 == ep);
                if prefix.len() > 0 {
                    assert(ep.take(prefix.len() as int) =~= prefix);
                    assert(ep[prefix.len() as int] == 47u8);
                }
            }
        },
        FsNode::Dir { entries } => {
            assert(wf_entries(entries@));
            lemma_paths_below_entries(ep, entries@);
            let files = files_under(ep, e.node);
            assert forall|k: int|
                0 <= k < files.len() implies (#[trigger] files[k]).0.len() > prefix.len() && (
            prefix.len() == 0 || (files[k].0.take(prefix.len() as int) == prefix
                && files[k].0[prefix.len() as int] == 47u8)) by {
                assert(files[k] == files_in_entries(ep, entries@)[k]);
                let q = files[k].0;
                assert(q.len() > ep.len());
                assert(q.take(ep.len() as int) == ep);
                if prefix.len() > 0 {
                    assert(ep.take(prefix.len() as int) =~= prefix);
                    assert(q.take(prefix.len() as int) =~= ep.take(prefix.len() as int));
                    assert(q[prefix.len() as int] == ep[prefix.len() as int]);
                    assert(ep[prefix.len() as int] == 47u8);
                }
            }
        },
        _ => {},
    }
}

proof fn lemma_distinct_names_disjoint(prefix: Seq<u8>, n1: Seq<u8>, n2: Seq<u8>, q: Seq<u8>)
    requires
        valid_name(n1),
        valid_name(n2),
        n1 != n2,
        extends_path(q, entry_path(prefix, n1)),
    ensures
        !extends_path(q, entry_path(prefix, n2)),
{
    if !extends_path(q, entry_path(prefix, n2)) {
        return;
    }
    let b: int = if prefix.len() == 0 {
        0
    } else {
        prefix.len() as int + 1
    };
    let ep1 = entry_path(prefix, n1);
    let ep2 = entry_path(prefix, n2);
    assert(ep1.len() == b + n1.len());
    assert(ep2.len() == b + n2.len());
    assert forall|i: int| 0 <= i < n1.len() implies ep1[b + i] == n1[i] by {}
    assert forall|i: int| 0 <= i < n2.len() implies ep2[b + i] == n2[i] by {}
    assert(q.len() >= ep1.len());
    assert(q.len() >= ep2.len());
    assert forall|i: int| 0 <= i < ep1.len() implies q[i] == ep1[i] by {
        if q != ep1 {
            assert(q.take(ep1.len() as int)[i] == q[i]);
        }
    }
    assert forall|i: int| 0 <= i < ep2.len() implies q[i] == ep2[i] by {
        if q != ep2 {
            assert(q.take(ep2.len() as int)[i] == q[i]);
        }
    }
    if n1.len() == n2.len() {
        assert forall|i: int| 0 <= i < n1.len() implies n1[i] == n2[i] by {
            assert(n1[i] == ep1[b + i]);
            assert(ep1[b + i] == q[b + i]);
            assert(q[b + i] == ep2[b + i]);
        }
        assert(n1 =~= n2);
    } else if n1.len() < n2.len() {
        let cut = b + n1.len();
        assert(q[cut] == ep2[cut]);
        assert(ep2[cut] == n2[n1.len() as int]);
        assert(n2[n1.len() as int] != 47u8);
        assert(q.len() > ep1.len());
        assert(q[cut] == 47u8);
    } else {
        let cut = b + n2.len();
        assert(q[cut] == ep1[cut]);
        assert(ep1[cut] == n1[n2.len() as int]);
        assert(n1[n2.len() as int] != 47u8);
        assert(q.len() > ep2.len());
        assert(q[cut] == 47u8);
    }
}

proof fn lemma_no_paths_through_absent_name(prefix: Seq<u8>, s: Seq<FsEntry>, n: Seq<u8>)
    requires
        wf_entries(s),
        valid_name(n),
        forall|i: int| 0 <= i < s.len() ==> (#[trigger] s[i]).name@ != n,
    ensures
        none_extend(files_in_entries(prefix, s), entry_path(prefix, n)),
    decreases s.len(),
{
    if s.len() > 0 {
        let ep0 = entry_path(prefix, s[0].name@);
        let head = files_under(ep0, s[0].node);
        let tail = files_in_entries(prefix, s.drop_first());
        assert(wf_entry(s[0]) && wf_entries(s.drop_first()));
        assert(valid_name(s[0].name@));
        lemma_paths_extend_entry(prefix, s[0]);
        lemma_no_paths_through_absent_name(prefix, s.drop_first(), n);
        let files = files_in_entries(prefix, s);
        assert(files == head + tail);
        assert forall|k: int|
            0 <= k < files.len() implies !extends_path(
            (#[trigger] files[k]).0,
            entry_path(prefix, n),
        ) by {
            if k < head.len() {
                assert(files[k] == head[k]);
                if extends_path(files[k].0, entry_path(prefix, n)) {
                    lemma_distinct_names_disjoint(prefix, s[0].name@, n, files[k].0);
                }
            } else {
                assert(files[k] == tail[k - head.len()]);
            }
        }
    }
}

proof fn lemma_distinct_paths_entries(prefix: Seq<u8>, s: Seq<FsEntry>)
    requires
        wf_entries(s),
        distinct_names(s),
    ensures
        distinct_paths(files_in_entries(prefix, s)),
    decreases s, 0int,
{
    if s.len() > 0 {
        let ep0 = entry_path(prefix, s[0].name@);
        let head = files_under(ep0, s[0].node);
        let tail = files_in_entries(prefix, s.drop_first());
        assert(wf_entry(s[0]) && wf_entries(s.drop_first()));
        assert(valid_name(s[0].name@));
        assert(entry_distinct(s[0]));
        lemma_distinct_paths_entry(prefix, s[0]);
        assert forall|i: int| 0 <= i < s.drop_first().len() implies (#[trigger] s.drop_first()[
            i
        ]).name@ != s[0].name@ by {
            assert(s.drop_first()[i] == s[i + 1]);
        }
        assert(wf_entries(s.drop_first()));
        assert(level_distinct(s.drop_first())) by {
            assert forall|i: int, j: int| 0 <= i < j < s.drop_first().len() implies s.drop_first()[
                i
            ].name@ != s.drop_first()[j].name@ by {
                assert(s.drop_first()[i] == s[i + 1]);
                assert(s.drop_first()[j] == s[j + 1]);
            }
        }
        assert(forall|i: int| #![trigger s.drop_first()[i]]
            0 <= i < s.drop_first().len() ==> entry_distinct(s.drop_first()[i])) by {
            assert forall|i: int|
                0 <= i < s.drop_first().len() implies entry_distinct(
                #[trigger] s.drop_first()[i],
            ) by {
                assert(s.drop_first()[i] == s[i + 1]);
            }
        }
        lemma_distinct_paths_entries(prefix, s.drop_first());
        lemma_no_paths_through_absent_name(prefix, s.drop_first(), s[0].name@);
        lemma_paths_extend_entry(prefix, s[0]);
        let files = files_in_entries(prefix, s);
        assert(files == head + tail);
        assert forall|i: int, j: int| 0 <= i < j < files.len() implies files[i].0 != files[
            j
        ].0 by {
            if j < head.len() {
                assert(files[i] == head[i]);
                assert(files[j] == head[j]);
            } else if i >= head.len() {
                assert(files[i] == tail[i - head.len()]);
                assert(files[j] == tail[j - head.len()]);
            } else {
                assert(files[i] == head[i]);
                assert(files[j] == tail[j - head.len()]);
                assert(extends_path(files[i].0, ep0));
                assert(!extends_path(files[j].0, ep0));
            }
        }
    }
}

proof fn lemma_distinct_paths_entry(prefix: Seq<u8>, e: FsEntry)
    requires
        wf_entry(e),
        entry_distinct(e),
    ensures
        distinct_paths(files_under(entry_path(prefix, e.name@), e.node)),
    decreases e, 1int,
{
    match e.node {
        FsNode::Dir { entries } => {
            lemma_distinct_paths_entries(entry_path(prefix, e.name@), entries@);
        },
        _ => {},
    }
}

/// Law: on a well-formed snapshot whose sibling names are distinct at
/// every level — as a real filesystem guarantees — the walk of a
/// directory root visits each file exactly once: the walked relative
/// paths are pairwise distinct.
pub proof fn lemma_walk_visits_each_file_once(root: FsNode)
    requires
        root matches FsNode::Dir { entries } && wf_entries(entries@) && distinct_names(entries@),
    ensures
        distinct_paths(files_under(Seq::<u8>::empty(), root)),
{
    match root {
        FsNode::Dir { entries } => {
            lemma_distinct_paths_entries(Seq::<u8>::empty(), entries@);
        },
        _ => {},
    }
}

/// Law: on a well-formed snapshot the walk of a directory root visits
/// exactly the regular files reachable from it — a pair of a relative
/// path and raw content appears among the walked files if and only if
/// that file is reachable from the root's listing, and hence no file
/// outside the root is ever visited.
pub proof fn lemma_walk_visits_exactly_reachable(root: FsNode, q: Seq<u8>, raw: Seq<u8>)
    requires
        root matches FsNode::Dir { entries } && wf_entries(entries@),
    ensures
        root matches FsNode::Dir { entries } ==> (files_under(
            Seq::<u8>::empty(),
            root,
        ).contains((q, raw)) <==> has_file(entries@, q, raw)),
{
    match root {
        FsNode::Dir { entries } => {
            lemma_entries_membership(Seq::<u8>::empty(), entries@, q, raw);
            if has_file(entries@, q, raw) {
                assert(q == entry_path(Seq::<u8>::empty(), q));
            }
        },
        _ => {},
    }
}

/// Law: the descriptors the walk returns inherit the walked paths, so
/// on a snapshot with distinct sibling names no two descriptors carry
/// the same relative path.
pub proof fn lemma_descriptor_paths_distinct(ds: Seq<FileDescriptor>, rs: Seq<(Seq<u8>, Seq<u8>)>)
    requires
        match_records(ds, rs),
        distinct_paths(rs),
    ensures
        forall|i: int, j: int|
            0 <= i < j < ds.len() ==> ds[i].relative_path@ != ds[j].relative_path@,
{
    assert forall|i: int, j: int|
        0 <= i < j < ds.len() implies ds[i].relative_path@ != ds[j].relative_path@ by {
        assert(descriptor_for(ds[i], rs[i].0, rs[i].1));
        assert(descriptor_for(ds[j], rs[j].0, rs[j].1));
    }
}

/// Collects a descriptor for every regular file reachable from the
/// staged root, in listing order; the root itself is not an entry, so
/// every path is relative to it.  A root whose listing, or any
/// reachable listing or file read, failed yields `CollectionFailed`.
/// The pipeline only ever hands a directory here; a file root would
/// stand for its own content under an empty relative path, and a
/// skipped root yields nothing.
pub fn collect_files(root: &FsNode) -> (r: Result<Vec<FileDescriptor>, ImportError>)
    ensures
        match r {
            Ok(files) => subtree_readable(*root) && match_records(
                files@,
                files_under(Seq::<u8>::empty(), *root),
            ),
            Err(e) => !subtree_readable(*root) && e == ImportError::CollectionFailed(
                None::<String>,
            ),
        },
{
    let empty_path: Vec<u8> = Vec::new();
    collect_from_node(&empty_path, root)
}

} // verus!
