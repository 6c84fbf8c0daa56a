//! Paths and filesystem operations.
//!
//! A gadget plan is an ordered list of `FsOp` values.  Applying the list
//! in order at the ConfigFS mount root materializes (or tears down) the
//! gadget tree.  The order is load-bearing: ConfigFS validates a symlink
//! target when the link is created, and refuses to remove a directory
//! that still has children, so creation runs parents-first and
//! functions-before-configs, and teardown runs in exact reverse.

use vstd::prelude::*;

verus! {

/// A filesystem path relative to the ConfigFS mount root, one path
/// segment per directory level.
#[derive(Debug)]
pub struct FsPath {
    pub segments: Vec<String>,
}

impl View for FsPath {
    type V = Seq<Seq<char>>;

    open spec fn view(&self) -> Seq<Seq<char>> {
        self.segments.deep_view()
    }
}

impl Clone for FsPath {
    /// An equal path.
    fn clone(&self) -> (r: Self)
        ensures
            r@ == self@,
    {
        let mut segments: Vec<String> = Vec::new();
        let n = self.segments.len();
        let mut i: usize = 0;
        while i < n
            invariant
                i <= n,
                n == self.segments.len(),
                segments@.len() == i,
                forall|j: int| 0 <= j < i ==> segments@[j] == self.segments@[j],
            decreases n - i,
        {
            segments.push(self.segments[i].clone());
            i += 1;
        }
        let r = FsPath { segments };
        proof {
            assert(r@ =~= self@);
        }
        r
    }
}

impl FsPath {
    /// The one-segment path `seg`.
    pub fn single(seg: &str) -> (r: FsPath)
        ensures
            r@ == seq![seg@],
    {
        let mut segments: Vec<String> = Vec::new();
        segments.push(seg.to_owned());
        let r = FsPath { segments };
        proof {
            assert(r@ =~= seq![seg@]);
        }
        r
    }

    /// The path one level below `self`, at segment `seg`.
    pub fn child(&self, seg: &str) -> (r: FsPath)
        ensures
            r@ == self@.push(seg@),
    {
        let mut segments: Vec<String> = Vec::new();
        let n = self.segments.len();
        let mut i: usize = 0;
        while i < n
            invariant
                i <= n,
                n == self.segments.len(),
                segments@.len() == i,
                forall|j: int| 0 <= j < i ==> segments@[j] == self.segments@[j],
            decreases n - i,
        {
            segments.push(self.segments[i].clone());
            i += 1;
        }
        segments.push(seg.to_owned());
        let r = FsPath { segments };
        proof {
            assert(r@ =~= self@.push(seg@));
        }
        r
    }
}

/// The mathematical value of one filesystem operation.
pub enum FsOpShape {
    CreateDir { path: Seq<Seq<char>> },
    WriteFile { path: Seq<Seq<char>>, contents: Seq<u8> },
    CreateSymlink { target: Seq<Seq<char>>, link: Seq<Seq<char>> },
    RemoveLink { path: Seq<Seq<char>> },
    RemoveDir { path: Seq<Seq<char>> },
}

/// One filesystem operation of a gadget plan.
///
/// `CreateDir` creates the directory together with any missing parents
/// and is a no-op when it already exists; `WriteFile` truncates and
/// rewrites; `CreateSymlink` places `link` pointing at `target` (both
/// given relative to the mount root; the executor resolves the target
/// against the root before linking); `RemoveLink` unlinks a symlink;
/// `RemoveDir` removes a directory and the attribute files inside it.
#[derive(Debug)]
pub enum FsOp {
    CreateDir { path: FsPath },
    WriteFile { path: FsPath, contents: Vec<u8> },
    CreateSymlink { target: FsPath, link: FsPath },
    RemoveLink { path: FsPath },
    RemoveDir { path: FsPath },
}

impl View for FsOp {
    type V = FsOpShape;

    open spec fn view(&self) -> FsOpShape {
        match self {
            FsOp::CreateDir { path } => FsOpShape::CreateDir { path: path@ },
            FsOp::WriteFile { path, contents } => FsOpShape::WriteFile {
                path: path@,
                contents: contents@,
            },
            FsOp::CreateSymlink { target, link } => FsOpShape::CreateSymlink {
                target: target@,
                link: link@,
            },
            FsOp::RemoveLink { path } => FsOpShape::RemoveLink { path: path@ },
            FsOp::RemoveDir { path } => FsOpShape::RemoveDir { path: path@ },
        }
    }
}

/// The mathematical value of a whole plan.
pub open spec fn ops_view(s: Seq<FsOp>) -> Seq<FsOpShape> {
    s.map_values(|op: FsOp| op@)
}

/// Appends one operation to a plan under construction.
pub fn push_op(ops: &mut Vec<FsOp>, op: FsOp)
    ensures
        ops_view(final(ops)@) == ops_view(old(ops)@).push(op@),
{
    let ghost prev = ops@;
    let ghost shape = op@;
    ops.push(op);
    proof {
        assert(ops_view(ops@) =~= ops_view(prev).push(shape));
    }
}

/// Appends a whole sub-plan to a plan under construction.
pub fn append_ops(ops: &mut Vec<FsOp>, more: Vec<FsOp>)
    ensures
        ops_view(final(ops)@) == ops_view(old(ops)@) + ops_view(more@),
{
    let ghost prev = ops@;
    let ghost extra = more@;
    let mut more = more;
    ops.append(&mut more);
    proof {
        assert(ops_view(ops@) =~= ops_view(prev) + ops_view(extra));
    }
}

} // verus!
