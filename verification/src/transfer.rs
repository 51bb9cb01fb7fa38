//! The recursive transfer engine, written as an explicit work list.
//!
//! One job mirrors one remote path. Visiting a directory creates its local
//! counterpart and queues the listed children; visiting a file streams it
//! into its local target through a fixed-size buffer. The engine makes every
//! decision — which entry is next, where it lands locally, how many bytes the
//! job has copied — while the session and filesystem operations themselves
//! happen outside and report their results back.

use vstd::prelude::*;

verus! {

/// The reference size of the intermediate copy buffer.
pub const COPY_BUFFER_BYTES: usize = 512 * 1024;

/// What a stat or listing reports about one remote entry.
pub struct RemoteEntry {
    pub path: String,
    pub is_directory: bool,
    pub size: u64,
}

/// The abstract value of a [`RemoteEntry`].
pub struct RemoteEntryV {
    pub path: Seq<char>,
    pub is_directory: bool,
    pub size: u64,
}

impl View for RemoteEntry {
    type V = RemoteEntryV;

    open spec fn view(&self) -> RemoteEntryV {
        RemoteEntryV { path: self.path@, is_directory: self.is_directory, size: self.size }
    }
}

/// One entry still to visit, and the local directory it lands in.
pub struct WorkItem {
    pub entry: RemoteEntry,
    pub local_parent: String,
}

/// The abstract value of a [`WorkItem`].
pub struct WorkItemV {
    pub entry: RemoteEntryV,
    pub local_parent: Seq<char>,
}

impl View for WorkItem {
    type V = WorkItemV;

    open spec fn view(&self) -> WorkItemV {
        WorkItemV { entry: self.entry@, local_parent: self.local_parent@ }
    }
}

/// A pending visit of `entry` into `local_parent`.
pub open spec fn item(entry: RemoteEntryV, local_parent: Seq<char>) -> WorkItemV {
    WorkItemV { entry, local_parent }
}

/// Why a job, or one entry within it, failed. A failure aborts the whole job
/// — its remaining entries are dropped — but never the worker.
#[derive(PartialEq, Eq, Structural, Clone, Copy, Debug)]
pub enum TransferError {
    /// The remote path of the job cannot be stat'd: it no longer exists.
    NotFound,
    /// A remote path has no final component to name its local target by, or
    /// ends in a relative `.` or `..` component.
    InvalidPath,
    /// A remote directory could not be listed.
    ListFailed,
    /// A remote file could not be opened for reading.
    OpenFailed,
    /// Reading from the remote stream failed.
    ReadFailed,
    /// A local directory could not be created.
    CreateDirFailed,
    /// The local file could not be created, written or flushed.
    WriteFailed,
}

/// What the worker must do next for the entry just taken off the work list.
pub enum TransferStep {
    /// Create `local_target` (and any missing parents, idempotently), list
    /// the remote directory, and hand the listing back through
    /// `push_children` with this same `local_target`.
    MirrorDirectory { remote_path: String, local_target: String },
    /// Open the remote file, create `local_target` (truncating an existing
    /// file), and stream it through the copy buffer, reporting each read to a
    /// [`FileCopy`].
    CopyFile { remote_path: String, local_target: String },
}

/// `p` without its trailing separators.
pub open spec fn trim_trailing_slashes(p: Seq<char>) -> Seq<char>
    decreases p.len(),
{
    if p.len() > 0 && p.last() == '/' {
        trim_trailing_slashes(p.drop_last())
    } else {
        p
    }
}

/// What follows the last separator of `p`; `p` itself when it has none.
pub open spec fn after_last_slash(p: Seq<char>) -> Seq<char>
    decreases p.len(),
{
    if p.len() == 0 {
        p
    } else if p.last() == '/' {
        Seq::empty()
    } else {
        after_last_slash(p.drop_last()).push(p.last())
    }
}

/// The final component of `p`, trailing separators ignored; `None` when
/// nothing remains (an empty path, or one made only of separators) and for
/// the relative components `.` and `..`, which must never name a local
/// target — a listing could otherwise aim one outside the destination.
pub open spec fn basename_of(p: Seq<char>) -> Option<Seq<char>> {
    let t = trim_trailing_slashes(p);
    let b = after_last_slash(t);
    if t.len() == 0 || b == seq!['.'] || b == seq!['.', '.'] {
        Option::None
    } else {
        Option::Some(b)
    }
}

/// `parent` and `name` joined by a single separator; an empty parent leaves
/// `name` alone.
pub open spec fn join_path(parent: Seq<char>, name: Seq<char>) -> Seq<char> {
    if parent.len() == 0 {
        name
    } else if parent.last() == '/' {
        parent + name
    } else {
        parent + seq!['/'] + name
    }
}

/// The final component of `p`, trailing separators ignored; `None` when
/// nothing remains and for the relative components `.` and `..`.
pub fn basename(p: &str) -> (r: Option<String>)
    ensures
        r matches Some(b) ==> basename_of(p@) == Some(b@),
        r is None ==> basename_of(p@) is None,
{
    let n = p.unicode_len();
    proof {
        assert(p@.take(n as int) =~= p@);
    }
    let mut end: usize = n;
    while end > 0 && p.get_char(end - 1) == '/'
        invariant
            end <= n,
            n == p@.len(),
            trim_trailing_slashes(p@) == trim_trailing_slashes(p@.take(end as int)),
        decreases end,
    {
        proof {
            assert(p@.take(end as int).drop_last() =~= p@.take(end - 1));
        }
        end = end - 1;
    }
    proof {
        assert(trim_trailing_slashes(p@.take(end as int)) == p@.take(end as int));
    }
    if end == 0 {
        return None;
    }
    let mut start: usize = end;
    proof {
        assert(p@.subrange(end as int, end as int) =~= Seq::<char>::empty());
        assert(after_last_slash(p@.take(end as int)) =~= after_last_slash(p@.take(end as int))
            + p@.subrange(end as int, end as int));
    }
    while start > 0 && p.get_char(start - 1) != '/'
        invariant
            start <= end <= n,
            n == p@.len(),
            after_last_slash(p@.take(end as int)) == after_last_slash(p@.take(start as int))
                + p@.subrange(start as int, end as int),
        decreases start,
    {
        proof {
            assert(p@.take(start as int).drop_last() =~= p@.take(start - 1));
            assert(after_last_slash(p@.take(start as int)) == after_last_slash(
                p@.take(start - 1),
            ).push(p@[start - 1]));
            assert(after_last_slash(p@.take(start - 1)) + p@.subrange(start - 1, end as int)
                =~= after_last_slash(p@.take(start - 1)).push(p@[start - 1]) + p@.subrange(
                start as int,
                end as int,
            ));
        }
        start = start - 1;
    }
    proof {
        if start > 0 {
            assert(p@.take(start as int).last() == '/');
            assert(after_last_slash(p@.take(start as int)) =~= Seq::<char>::empty());
        } else {
            assert(p@.take(0) =~= Seq::<char>::empty());
        }
        assert(after_last_slash(p@.take(end as int)) =~= p@.subrange(start as int, end as int));
    }
    let blen = end - start;
    if blen == 1 && p.get_char(start) == '.' {
        proof {
            assert(p@.subrange(start as int, end as int) =~= seq!['.']);
        }
        return None;
    }
    if blen == 2 && p.get_char(start) == '.' && p.get_char(start + 1) == '.' {
        proof {
            assert(p@.subrange(start as int, end as int) =~= seq!['.', '.']);
        }
        return None;
    }
    proof {
        let bv = p@.subrange(start as int, end as int);
        assert(bv != seq!['.']) by {
            if bv == seq!['.'] {
                assert(bv.len() == 1);
                assert(bv[0] == '.');
            }
        }
        assert(bv != seq!['.', '.']) by {
            if bv == seq!['.', '.'] {
                assert(bv.len() == 2);
                assert(bv[0] == '.');
                assert(bv[1] == '.');
            }
        }
    }
    let b = p.substring_char(start, end);
    Some(b.to_owned())
}

/// `parent` and `name` joined by a single separator.
pub fn join(parent: &str, name: &str) -> (r: String)
    ensures
        r@ == join_path(parent@, name@),
{
    let plen = parent.unicode_len();
    if plen == 0 {
        return name.to_owned();
    }
    let mut r = parent.to_owned();
    if parent.get_char(plen - 1) != '/' {
        r.append("/");
        proof {
            reveal_strlit("/");
            assert("/"@ =~= seq!['/']);
        }
    }
    r.append(name);
    r
}

/// The engine for one job: the work list of entries still to visit and the
/// job's running byte count.
pub struct TransferEngine {
    pending: Vec<WorkItem>,
    copied: u64,
}

impl TransferEngine {
    /// The entries still to visit; the last is visited next.
    pub closed spec fn pending_items(&self) -> Seq<WorkItemV> {
        self.pending@.map(|i: int, w: WorkItem| w@)
    }

    /// The bytes this job has copied so far.
    pub closed spec fn bytes_done(&self) -> nat {
        self.copied as nat
    }

    /// An engine rooted at one remote entry, mirroring into `local_parent`.
    pub fn new(root: RemoteEntry, local_parent: String) -> (e: TransferEngine)
        ensures
            e.pending_items() =~= seq![item(root@, local_parent@)],
            e.bytes_done() == 0,
    {
        let mut pending: Vec<WorkItem> = Vec::new();
        pending.push(WorkItem { entry: root, local_parent });
        TransferEngine { pending, copied: 0 }
    }

    /// Takes the next entry off the work list and says what to do with it:
    /// mirror it as a directory or copy it as a file, in either case into
    /// `local_parent / basename(path)`; the invalid-path error when the path
    /// has no final component; `Ok(None)` exactly when the job is complete.
    pub fn next_step(&mut self) -> (r: Result<Option<TransferStep>, TransferError>)
        ensures
            final(self).bytes_done() == old(self).bytes_done(),
            old(self).pending_items().len() == 0 ==> r == Ok::<Option<TransferStep>,
                TransferError,
            >(None) && final(self).pending_items() == old(self).pending_items(),
            old(self).pending_items().len() > 0 ==> final(self).pending_items() == old(
                self,
            ).pending_items().drop_last() && visit_outcome(old(self).pending_items().last(), r),
    {
        match self.pending.pop() {
            None => {
                proof {
                    assert(self.pending@.map(|i: int, w: WorkItem| w@).len() == 0);
                }
                Ok(None)
            },
            Some(top) => {
                proof {
                    assert(self.pending@.map(|i: int, w: WorkItem| w@) =~= old(
                        self,
                    ).pending@.map(|i: int, w: WorkItem| w@).drop_last());
                }
                match basename(top.entry.path.as_str()) {
                    None => Err(TransferError::InvalidPath),
                    Some(b) => {
                        let local_target = join(top.local_parent.as_str(), b.as_str());
                        if top.entry.is_directory {
                            Ok(
                                Some(
                                    TransferStep::MirrorDirectory {
                                        remote_path: top.entry.path,
                                        local_target,
                                    },
                                ),
                            )
                        } else {
                            Ok(
                                Some(
                                    TransferStep::CopyFile {
                                        remote_path: top.entry.path,
                                        local_target,
                                    },
                                ),
                            )
                        }
                    },
                }
            },
        }
    }

    /// Queues the children of a just-mirrored directory, the first listed on
    /// top of the work list, so they are all visited — in listing order —
    /// before anything older.
    pub fn push_children(&mut self, children: Vec<RemoteEntry>, local_dir: &str)
        ensures
            final(self).bytes_done() == old(self).bytes_done(),
            final(self).pending_items() == old(self).pending_items() + children@.map(
                |i: int, c: RemoteEntry| item(c@, local_dir@),
            ).reverse(),
    {
        let ghost orig = children@;
        let mut rest = children;
        while rest.len() > 0
            invariant
                rest@.len() <= orig.len(),
                rest@ == orig.take(rest@.len() as int),
                self.copied == old(self).copied,
                self.pending@.map(|i: int, w: WorkItem| w@) =~= old(self).pending@.map(
                    |i: int, w: WorkItem| w@,
                ) + orig.map(|i: int, c: RemoteEntry| item(c@, local_dir@)).reverse().take(
                    orig.len() - rest@.len(),
                ),
            decreases rest.len(),
        {
            let ghost pend0 = self.pending@;
            let ghost rest0 = rest@;
            let child = rest.pop().unwrap();
            proof {
                assert(child == orig[rest@.len() as int]);
                assert(orig.take(rest0.len() as int).drop_last() =~= orig.take(rest@.len() as int));
            }
            let parent = local_dir.to_owned();
            self.pending.push(WorkItem { entry: child, local_parent: parent });
            proof {
                let f = |i: int, c: RemoteEntry| item(c@, local_dir@);
                let g = |i: int, w: WorkItem| w@;
                let n = orig.len() as int;
                let k = n - rest@.len();
                assert(self.pending@.map(g) =~= pend0.map(g).push(item(orig[n - k]@, local_dir@)));
                assert(orig.map(f).reverse()[k - 1] == item(orig[n - k]@, local_dir@));
                assert(orig.map(f).reverse().take(k) =~= orig.map(f).reverse().take(k - 1).push(
                    orig.map(f).reverse()[k - 1],
                ));
                assert(self.pending@.map(g) =~= old(self).pending@.map(g) + orig.map(
                    f,
                ).reverse().take(k));
            }
        }
        proof {
            let f = |i: int, c: RemoteEntry| item(c@, local_dir@);
            assert(orig.map(f).reverse().take(orig.len() as int) =~= orig.map(f).reverse());
        }
    }

    /// Adds a finished file's byte count to the job's running total.
    pub fn add_copied(&mut self, n: u64)
        requires
            old(self).bytes_done() + n <= u64::MAX,
        ensures
            final(self).bytes_done() == old(self).bytes_done() + n,
            final(self).pending_items() == old(self).pending_items(),
    {
        self.copied = self.copied + n;
    }

    /// The bytes this job has copied so far.
    pub fn bytes_copied(&self) -> (n: u64)
        ensures
            n == self.bytes_done(),
    {
        self.copied
    }
}

/// What visiting `top` must have produced: the step that mirrors a directory
/// or copies a file into `local_parent / basename(path)`, or the
/// invalid-path error when the path has no final component.
pub open spec fn visit_outcome(top: WorkItemV, r: Result<Option<TransferStep>, TransferError>) -> bool {
    match basename_of(top.entry.path) {
        Option::None => r == Err::<Option<TransferStep>, TransferError>(TransferError::InvalidPath),
        Option::Some(b) => {
            &&& r matches Ok(Some(step))
            &&& (step matches TransferStep::MirrorDirectory { remote_path, local_target }
                ==> top.entry.is_directory && remote_path@ == top.entry.path && local_target@
                == join_path(top.local_parent, b))
            &&& (step matches TransferStep::CopyFile { remote_path, local_target }
                ==> !top.entry.is_directory && remote_path@ == top.entry.path && local_target@
                == join_path(top.local_parent, b))
        },
    }
}

/// Starts one job from the stat of its remote path: an engine rooted at that
/// entry, or the not-found error when the path no longer exists — the job
/// fails, the worker does not.
pub fn begin_job(stat: Option<RemoteEntry>, local_dest: String) -> (r: Result<
    TransferEngine,
    TransferError,
>)
    ensures
        stat matches Some(entry) ==> r matches Ok(e) && e.pending_items() =~= seq![
            item(entry@, local_dest@),
        ] && e.bytes_done() == 0,
        stat is None ==> r == Err::<TransferEngine, TransferError>(TransferError::NotFound),
{
    match stat {
        Some(entry) => Ok(TransferEngine::new(entry, local_dest)),
        None => Err(TransferError::NotFound),
    }
}

/// Accounting for one file's streamed copy: the bytes written locally are
/// exactly the chunks read, in order.
pub struct FileCopy {
    total: u64,
    written: Ghost<Seq<u8>>,
}

impl FileCopy {
    /// The bytes written to the local file so far.
    pub closed spec fn written_bytes(&self) -> Seq<u8> {
        self.written@
    }

    /// The running count equals the bytes written.
    pub closed spec fn wf(&self) -> bool {
        self.total == self.written@.len()
    }

    /// A copy that has not read anything yet.
    pub fn new() -> (c: FileCopy)
        ensures
            c.wf(),
            c.written_bytes() == Seq::<u8>::empty(),
    {
        FileCopy { total: 0, written: Ghost(Seq::empty()) }
    }

    /// One read of the intermediate buffer: what was read is appended to the
    /// local file, and copying continues exactly while the read was
    /// non-empty — a zero-length read is end of stream.
    pub fn on_chunk(&mut self, chunk: &[u8]) -> (cont: bool)
        requires
            old(self).wf(),
            old(self).written_bytes().len() + chunk@.len() <= u64::MAX,
        ensures
            final(self).wf(),
            cont == (chunk@.len() != 0),
            cont ==> final(self).written_bytes() == old(self).written_bytes() + chunk@,
            !cont ==> final(self).written_bytes() == old(self).written_bytes(),
    {
        if chunk.len() == 0 {
            false
        } else {
            self.total = self.total + chunk.len() as u64;
            proof {
                self.written@ = self.written@ + chunk@;
            }
            true
        }
    }

    /// The completed copy's byte count: exactly the length of what was
    /// written.
    pub fn finish(self) -> (n: u64)
        requires
            self.wf(),
        ensures
            n == self.written_bytes().len(),
    {
        self.total
    }
}

/// The successive reads of a file with content `content` through a buffer of
/// `cap` bytes: full buffers while more remains, then the remainder; nothing
/// at all for an empty file.
pub open spec fn chunked(content: Seq<u8>, cap: nat) -> Seq<Seq<u8>>
    recommends
        cap > 0,
    decreases content.len(),
{
    if cap == 0 || content.len() == 0 {
        Seq::empty()
    } else if content.len() <= cap {
        seq![content]
    } else {
        seq![content.take(cap as int)] + chunked(content.skip(cap as int), cap)
    }
}

/// Streaming through a fixed-size buffer loses and reorders nothing:
/// reassembling the reads gives back the exact content, the same bytes and
/// the same length — for every content, including the empty file and one
/// whose length is an exact multiple of the buffer size.
pub proof fn lemma_chunked_round_trip(content: Seq<u8>, cap: nat)
    requires
        cap > 0,
    ensures
        chunked(content, cap).flatten() =~= content,
    decreases content.len(),
{
    if content.len() == 0 {
        assert(chunked(content, cap).flatten() =~= Seq::<u8>::empty());
    } else if content.len() <= cap {
        assert(seq![content].flatten() == content) by {
            Seq::lemma_flatten_singleton(seq![content]);
        }
    } else {
        let rest = chunked(content.skip(cap as int), cap);
        lemma_chunked_round_trip(content.skip(cap as int), cap);
        assert((seq![content.take(cap as int)] + rest).drop_first() =~= rest);
        assert((seq![content.take(cap as int)] + rest).first() == content.take(cap as int));
        assert(chunked(content, cap).flatten() =~= content.take(cap as int) + rest.flatten());
    }
}

} // verus!
