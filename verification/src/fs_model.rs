//! A mathematical model of the filesystem under the ConfigFS mount
//! root, used to state and prove what applying a plan leaves on disk.
//!
//! The model is a partial map from root-relative paths to entries.
//! Creations insert; a file write truncates and rewrites; removing a
//! directory takes the directory and everything below it (in ConfigFS
//! the attribute files of a group vanish with the group).

use vstd::prelude::*;
use crate::fsop::FsOpShape;

verus! {

/// What one path holds.
pub enum FsEntry {
    Dir,
    File { contents: Seq<u8> },
    Link { target: Seq<Seq<char>> },
}

/// The path an operation acts on: for a symlink creation, the link.
pub open spec fn op_target(op: FsOpShape) -> Seq<Seq<char>> {
    match op {
        FsOpShape::CreateDir { path } => path,
        FsOpShape::WriteFile { path, contents } => path,
        FsOpShape::CreateSymlink { target, link } => link,
        FsOpShape::RemoveLink { path } => path,
        FsOpShape::RemoveDir { path } => path,
    }
}

/// Whether the operation only inserts an entry.
pub open spec fn is_create(op: FsOpShape) -> bool {
    op is CreateDir || op is WriteFile || op is CreateSymlink
}

/// The entry a creating operation leaves at its target.
pub open spec fn op_entry(op: FsOpShape) -> FsEntry
    recommends
        is_create(op),
{
    match op {
        FsOpShape::CreateDir { path } => FsEntry::Dir,
        FsOpShape::WriteFile { path, contents } => FsEntry::File { contents },
        FsOpShape::CreateSymlink { target, link } => FsEntry::Link { target },
        FsOpShape::RemoveLink { path } => FsEntry::Dir,
        FsOpShape::RemoveDir { path } => FsEntry::Dir,
    }
}

/// One operation applied to the model.
pub open spec fn apply_op(fs: Map<Seq<Seq<char>>, FsEntry>, op: FsOpShape) -> Map<
    Seq<Seq<char>>,
    FsEntry,
> {
    match op {
        FsOpShape::CreateDir { path } => fs.insert(path, FsEntry::Dir),
        FsOpShape::WriteFile { path, contents } => fs.insert(path, FsEntry::File { contents }),
        FsOpShape::CreateSymlink { target, link } => fs.insert(link, FsEntry::Link { target }),
        FsOpShape::RemoveLink { path } => fs.remove(path),
        FsOpShape::RemoveDir { path } => fs.remove_keys(
            Set::new(|q: Seq<Seq<char>>| path.is_prefix_of(q)),
        ),
    }
}

/// A whole plan applied in order.
pub open spec fn apply_ops(fs: Map<Seq<Seq<char>>, FsEntry>, ops: Seq<FsOpShape>) -> Map<
    Seq<Seq<char>>,
    FsEntry,
>
    decreases ops.len(),
{
    if ops.len() == 0 {
        fs
    } else {
        apply_op(apply_ops(fs, ops.drop_last()), ops.last())
    }
}

/// Applying a concatenation is applying the parts in order.
pub proof fn lemma_apply_ops_concat(
    fs: Map<Seq<Seq<char>>, FsEntry>,
    a: Seq<FsOpShape>,
    b: Seq<FsOpShape>,
)
    ensures
        apply_ops(fs, a + b) == apply_ops(apply_ops(fs, a), b),
    decreases b.len(),
{
    if b.len() == 0 {
        assert(a + b =~= a);
    } else {
        lemma_apply_ops_concat(fs, a, b.drop_last());
        assert((a + b).drop_last() =~= a + b.drop_last());
        assert((a + b).last() == b.last());
    }
}

/// After a plan of creations among which every operation on `p` leaves
/// the entry `e`, and at least one does, `p` holds `e`.
pub proof fn lemma_lookup_determined(
    fs: Map<Seq<Seq<char>>, FsEntry>,
    ops: Seq<FsOpShape>,
    p: Seq<Seq<char>>,
    e: FsEntry,
)
    requires
        forall|k: int| 0 <= k < ops.len() ==> is_create(#[trigger] ops[k]),
        exists|k: int| 0 <= k < ops.len() && op_target(#[trigger] ops[k]) == p,
        forall|k: int|
            0 <= k < ops.len() && op_target(#[trigger] ops[k]) == p ==> op_entry(ops[k]) == e,
    ensures
        apply_ops(fs, ops).contains_key(p),
        apply_ops(fs, ops)[p] == e,
    decreases ops.len(),
{
    let last = ops.last();
    assert(is_create(last));
    if op_target(last) == p {
        assert(op_entry(last) == e);
    } else {
        let w = choose|k: int| 0 <= k < ops.len() && op_target(#[trigger] ops[k]) == p;
        assert(w < ops.len() - 1);
        assert(ops.drop_last()[w] == ops[w]);
        assert(forall|k: int|
            0 <= k < ops.drop_last().len() ==> #[trigger] ops.drop_last()[k] == ops[k]);
        lemma_lookup_determined(fs, ops.drop_last(), p, e);
    }
}

/// The paths whose entries a plan creates and has to undo (directories
/// and symlinks; file writes are undone with their directory), in
/// creation order.
pub open spec fn created_paths(ops: Seq<FsOpShape>) -> Seq<Seq<Seq<char>>>
    decreases ops.len(),
{
    if ops.len() == 0 {
        Seq::<Seq<Seq<char>>>::empty()
    } else {
        let rest = created_paths(ops.drop_last());
        match ops.last() {
            FsOpShape::CreateDir { path } => rest.push(path),
            FsOpShape::CreateSymlink { target, link } => rest.push(link),
            _ => rest,
        }
    }
}

/// The paths a plan removes, in removal order.
pub open spec fn removed_paths(ops: Seq<FsOpShape>) -> Seq<Seq<Seq<char>>>
    decreases ops.len(),
{
    if ops.len() == 0 {
        Seq::<Seq<Seq<char>>>::empty()
    } else {
        let rest = removed_paths(ops.drop_last());
        match ops.last() {
            FsOpShape::RemoveLink { path } => rest.push(path),
            FsOpShape::RemoveDir { path } => rest.push(path),
            _ => rest,
        }
    }
}

/// Path accounting distributes over plan concatenation.
pub proof fn lemma_paths_concat(a: Seq<FsOpShape>, b: Seq<FsOpShape>)
    ensures
        created_paths(a + b) == created_paths(a) + created_paths(b),
        removed_paths(a + b) == removed_paths(a) + removed_paths(b),
    decreases b.len(),
{
    if b.len() == 0 {
        assert(a + b =~= a);
        assert(created_paths(a) + created_paths(b) =~= created_paths(a));
        assert(removed_paths(a) + removed_paths(b) =~= removed_paths(a));
    } else {
        lemma_paths_concat(a, b.drop_last());
        assert((a + b).drop_last() =~= a + b.drop_last());
        assert((a + b).last() == b.last());
        match b.last() {
            FsOpShape::CreateDir { path } => {
                assert(created_paths(a) + created_paths(b) =~= (created_paths(a) + created_paths(
                    b.drop_last(),
                )).push(path));
                assert(removed_paths(a) + removed_paths(b) =~= removed_paths(a) + removed_paths(
                    b.drop_last(),
                ));
            },
            FsOpShape::CreateSymlink { target, link } => {
                assert(created_paths(a) + created_paths(b) =~= (created_paths(a) + created_paths(
                    b.drop_last(),
                )).push(link));
                assert(removed_paths(a) + removed_paths(b) =~= removed_paths(a) + removed_paths(
                    b.drop_last(),
                ));
            },
            FsOpShape::WriteFile { path, contents } => {
                assert(created_paths(a) + created_paths(b) =~= created_paths(a) + created_paths(
                    b.drop_last(),
                ));
                assert(removed_paths(a) + removed_paths(b) =~= removed_paths(a) + removed_paths(
                    b.drop_last(),
                ));
            },
            FsOpShape::RemoveLink { path } => {
                assert(created_paths(a) + created_paths(b) =~= created_paths(a) + created_paths(
                    b.drop_last(),
                ));
                assert(removed_paths(a) + removed_paths(b) =~= (removed_paths(a) + removed_paths(
                    b.drop_last(),
                )).push(path));
            },
            FsOpShape::RemoveDir { path } => {
                assert(created_paths(a) + created_paths(b) =~= created_paths(a) + created_paths(
                    b.drop_last(),
                ));
                assert(removed_paths(a) + removed_paths(b) =~= (removed_paths(a) + removed_paths(
                    b.drop_last(),
                )).push(path));
            },
        }
    }
}

/// Path accounting for a one-operation plan.
pub proof fn lemma_paths_one(op: FsOpShape)
    ensures
        created_paths(seq![op]) == (match op {
            FsOpShape::CreateDir { path } => seq![path],
            FsOpShape::CreateSymlink { target, link } => seq![link],
            _ => Seq::<Seq<Seq<char>>>::empty(),
        }),
        removed_paths(seq![op]) == (match op {
            FsOpShape::RemoveLink { path } => seq![path],
            FsOpShape::RemoveDir { path } => seq![path],
            _ => Seq::<Seq<Seq<char>>>::empty(),
        }),
{
    assert(seq![op].drop_last() =~= Seq::<FsOpShape>::empty());
    assert(seq![op].last() == op);
    assert(created_paths(Seq::<FsOpShape>::empty()) == Seq::<Seq<Seq<char>>>::empty());
    assert(removed_paths(Seq::<FsOpShape>::empty()) == Seq::<Seq<Seq<char>>>::empty());
    match op {
        FsOpShape::CreateDir { path } => {
            assert(created_paths(seq![op]) =~= seq![path]);
        },
        FsOpShape::CreateSymlink { target, link } => {
            assert(created_paths(seq![op]) =~= seq![link]);
        },
        FsOpShape::RemoveLink { path } => {
            assert(removed_paths(seq![op]) =~= seq![path]);
        },
        FsOpShape::RemoveDir { path } => {
            assert(removed_paths(seq![op]) =~= seq![path]);
        },
        FsOpShape::WriteFile { path, contents } => {
        },
    }
}

/// A plan of file writes accounts for no paths.
pub proof fn lemma_paths_writes(ops: Seq<FsOpShape>)
    requires
        forall|k: int| 0 <= k < ops.len() ==> (#[trigger] ops[k]) is WriteFile,
    ensures
        created_paths(ops) == Seq::<Seq<Seq<char>>>::empty(),
        removed_paths(ops) == Seq::<Seq<Seq<char>>>::empty(),
    decreases ops.len(),
{
    if ops.len() > 0 {
        assert(forall|k: int|
            0 <= k < ops.drop_last().len() ==> #[trigger] ops.drop_last()[k] == ops[k]);
        lemma_paths_writes(ops.drop_last());
    }
}

/// A plan of symlink creations creates exactly its link paths in order.
pub proof fn lemma_paths_links(ops: Seq<FsOpShape>)
    requires
        forall|k: int| 0 <= k < ops.len() ==> (#[trigger] ops[k]) is CreateSymlink,
    ensures
        created_paths(ops) == Seq::new(ops.len(), |i: int| op_target(ops[i])),
        removed_paths(ops) == Seq::<Seq<Seq<char>>>::empty(),
    decreases ops.len(),
{
    if ops.len() == 0 {
        assert(created_paths(ops) =~= Seq::new(ops.len(), |i: int| op_target(ops[i])));
    } else {
        assert(forall|k: int|
            0 <= k < ops.drop_last().len() ==> #[trigger] ops.drop_last()[k] == ops[k]);
        lemma_paths_links(ops.drop_last());
        assert(created_paths(ops) =~= Seq::new(ops.len(), |i: int| op_target(ops[i])));
    }
}

/// A plan of removals removes exactly its paths in order.
pub proof fn lemma_paths_removes(ops: Seq<FsOpShape>)
    requires
        forall|k: int|
            0 <= k < ops.len() ==> ((#[trigger] ops[k]) is RemoveLink || ops[k] is RemoveDir),
    ensures
        removed_paths(ops) == Seq::new(ops.len(), |i: int| op_target(ops[i])),
        created_paths(ops) == Seq::<Seq<Seq<char>>>::empty(),
    decreases ops.len(),
{
    if ops.len() == 0 {
        assert(removed_paths(ops) =~= Seq::new(ops.len(), |i: int| op_target(ops[i])));
    } else {
        assert(forall|k: int|
            0 <= k < ops.drop_last().len() ==> #[trigger] ops.drop_last()[k] == ops[k]);
        lemma_paths_removes(ops.drop_last());
        assert(removed_paths(ops) =~= Seq::new(ops.len(), |i: int| op_target(ops[i])));
    }
}

/// Reversal distributes over concatenation, swapping the sides.
pub proof fn lemma_reverse_concat<T>(a: Seq<T>, b: Seq<T>)
    ensures
        (a + b).reverse() == b.reverse() + a.reverse(),
{
    assert((a + b).reverse() =~= b.reverse() + a.reverse());
}

} // verus!
