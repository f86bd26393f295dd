//! The transfer handlers: the auth handshake and the chunked file-upload
//! state machine that run on top of one connection.
//!
//! The server-side handler checks the shared secret, answers the handshake,
//! and assembles incoming chunks into whole files; what the surrounding
//! program writes to disk is exactly what `completed_files` holds. The
//! client-side handler reacts to the server's handshake answer by cutting
//! the archive into chunks and handing back the messages to send, in order.

use vstd::prelude::*;
use vstd::slice::slice_to_vec;

use crate::packet::message::{
    chunk_end, lemma_num_chunks_bounds, num_chunks, spec_cut, ChunkView, FileBuffer, Message,
    MessageView,
};
use crate::strmap::StrMap;
use crate::utils::file::FileInfo;

verus! {

/// Largest number of content bytes one chunk may carry; far below the
/// 65535-byte frame ceiling so a chunk message always fits its frame.
pub const MAX_BUFFER_LENGTH: usize = 20480;

/// A chunk's position in its stream, decided once per chunk: a file that
/// fits in a single chunk arrives with both flags set and must be created
/// and finalized in one step.
#[derive(Debug, Clone, Copy, PartialEq, Eq, Structural)]
pub enum ChunkKind {
    Begin,
    Middle,
    End,
    BeginAndEnd,
}

/// The position the two flags of a chunk denote.
pub open spec fn spec_chunk_kind(c: ChunkView) -> ChunkKind {
    if c.is_begin && c.is_end {
        ChunkKind::BeginAndEnd
    } else if c.is_begin {
        ChunkKind::Begin
    } else if c.is_end {
        ChunkKind::End
    } else {
        ChunkKind::Middle
    }
}

/// Resolves a chunk's two flags into its position, once.
pub fn chunk_kind(fb: &FileBuffer) -> (r: ChunkKind)
    ensures
        r == spec_chunk_kind(fb@),
{
    if fb.is_begin && fb.is_end {
        ChunkKind::BeginAndEnd
    } else if fb.is_begin {
        ChunkKind::Begin
    } else if fb.is_end {
        ChunkKind::End
    } else {
        ChunkKind::Middle
    }
}

/// What a handler asks the connection to do after one message.
#[derive(Debug, PartialEq)]
pub enum HandlerAction {
    /// Nothing to send.
    Silent,
    /// Send this reply on the same connection.
    Send(Message),
    /// Send this reply, then close the connection.
    SendAndClose(Message),
}

/// The server side of the handshake and upload: holds the configured
/// secret and backup directory, the table of partially received files,
/// and the files received whole.
pub struct BackerServerHandle {
    backup_dir: String,
    secret: String,
    backup_files: StrMap<Vec<u8>>,
    completed_files: StrMap<Vec<u8>>,
}

impl BackerServerHandle {
    /// Both file tables are well formed.
    pub closed spec fn wf(&self) -> bool {
        self.backup_files.wf() && self.completed_files.wf()
    }

    /// The directory completed files are kept under.
    pub closed spec fn spec_backup_dir(&self) -> Seq<char> {
        self.backup_dir@
    }

    /// The shared secret a client must present.
    pub closed spec fn spec_secret(&self) -> Seq<char> {
        self.secret@
    }

    /// The partially received files: name to the bytes received so far.
    pub closed spec fn open_files(&self) -> Map<Seq<char>, Seq<u8>> {
        self.backup_files@.map_values(|v: Vec<u8>| v@)
    }

    /// The files received whole: name to their full content.
    pub closed spec fn completed_files(&self) -> Map<Seq<char>, Seq<u8>> {
        self.completed_files@.map_values(|v: Vec<u8>| v@)
    }

    /// A fresh handler for one connection: no file in flight.
    pub fn new(backup_dir: String, secret: String) -> (r: Self)
        ensures
            r.wf(),
            r.spec_backup_dir() == backup_dir@,
            r.spec_secret() == secret@,
            r.open_files() == Map::<Seq<char>, Seq<u8>>::empty(),
            r.completed_files() == Map::<Seq<char>, Seq<u8>>::empty(),
    {
        let r = Self {
            backup_dir,
            secret,
            backup_files: StrMap::new(),
            completed_files: StrMap::new(),
        };
        proof {
            assert(r.open_files() =~= Map::<Seq<char>, Seq<u8>>::empty());
            assert(r.completed_files() =~= Map::<Seq<char>, Seq<u8>>::empty());
        }
        r
    }

    /// The bytes received so far for a file still being transferred.
    pub fn open_file(&self, name: &String) -> (r: Option<&Vec<u8>>)
        requires
            self.wf(),
        ensures
            self.open_files().contains_key(name@) ==> (r matches Some(v) && v@
                == self.open_files()[name@]),
            !self.open_files().contains_key(name@) ==> r is None,
    {
        proof {
            assert(self.open_files().contains_key(name@) == self.backup_files@.contains_key(
                name@,
            ));
            if self.backup_files@.contains_key(name@) {
                assert(self.open_files()[name@] == self.backup_files@[name@]@);
            }
        }
        self.backup_files.get(name)
    }

    /// The full content of a file that was received whole.
    pub fn completed_file(&self, name: &String) -> (r: Option<&Vec<u8>>)
        requires
            self.wf(),
        ensures
            self.completed_files().contains_key(name@) ==> (r matches Some(v) && v@
                == self.completed_files()[name@]),
            !self.completed_files().contains_key(name@) ==> r is None,
    {
        proof {
            assert(self.completed_files().contains_key(name@)
                == self.completed_files@.contains_key(name@));
            if self.completed_files@.contains_key(name@) {
                assert(self.completed_files()[name@] == self.completed_files@[name@]@);
            }
        }
        self.completed_files.get(name)
    }

    /// The two file tables are the same in `pre` and `post`.
    pub open spec fn files_unchanged(pre: Self, post: Self) -> bool {
        post.open_files() == pre.open_files() && post.completed_files() == pre.completed_files()
    }

    /// How one `Auth` message is answered: `Authorize(true)` for exactly
    /// the configured secret, `Authorize(false)` followed by closing the
    /// connection for anything else.
    pub open spec fn auth_reply(pre: Self, s: Seq<char>) -> HandlerAction {
        if s == pre.spec_secret() {
            HandlerAction::Send(Message::Authorize(true))
        } else {
            HandlerAction::SendAndClose(Message::Authorize(false))
        }
    }

    /// How one chunk changes the file tables, by its position. `Begin`
    /// creates (or truncates) the open entry; `Middle` and `End` append to
    /// a known open entry and ignore an unknown one; `End` and
    /// `BeginAndEnd` move the finished file to the completed table.
    pub open spec fn chunk_step(pre: Self, post: Self, c: ChunkView) -> bool {
        match spec_chunk_kind(c) {
            ChunkKind::Begin => post.open_files() == pre.open_files().insert(c.file_name, c.buffer)
                && post.completed_files() == pre.completed_files(),
            ChunkKind::BeginAndEnd => post.completed_files() == pre.completed_files().insert(
                c.file_name,
                c.buffer,
            ) && post.open_files() == pre.open_files().remove(c.file_name),
            ChunkKind::Middle => if pre.open_files().contains_key(c.file_name) {
                post.open_files() == pre.open_files().insert(
                    c.file_name,
                    pre.open_files()[c.file_name] + c.buffer,
                ) && post.completed_files() == pre.completed_files()
            } else {
                Self::files_unchanged(pre, post)
            },
            ChunkKind::End => if pre.open_files().contains_key(c.file_name) {
                post.completed_files() == pre.completed_files().insert(
                    c.file_name,
                    pre.open_files()[c.file_name] + c.buffer,
                ) && post.open_files() == pre.open_files().remove(c.file_name)
            } else {
                Self::files_unchanged(pre, post)
            },
        }
    }

    /// One step of the server state machine.
    ///
    /// An `Auth` carrying exactly the configured secret is answered with
    /// `Authorize(true)`; any other secret is answered with
    /// `Authorize(false)` and the connection is closed, so a rejected peer
    /// never reaches the upload state. A `FileBuffer` is folded into the
    /// file tables as `chunk_step` describes. Every other message changes
    /// nothing and is not answered.
    pub fn handle(&mut self, message: &Message) -> (r: HandlerAction)
        requires
            old(self).wf(),
        ensures
            final(self).wf(),
            final(self).spec_secret() == old(self).spec_secret(),
            final(self).spec_backup_dir() == old(self).spec_backup_dir(),
            message@ matches MessageView::Auth(s) ==> (Self::files_unchanged(
                *old(self),
                *final(self),
            ) && r == Self::auth_reply(*old(self), s)),
            message@ matches MessageView::FileBuffer(c) ==> (r == HandlerAction::Silent
                && Self::chunk_step(*old(self), *final(self), c)),
            !(message@ matches MessageView::Auth(_)) && !(message@ matches MessageView::FileBuffer(
                _,
            )) ==> (r == HandlerAction::Silent && Self::files_unchanged(*old(self), *final(self))),
    {
        match message {
            Message::Auth(s) => {
                if self.secret == *s {
                    HandlerAction::Send(Message::Authorize(true))
                } else {
                    HandlerAction::SendAndClose(Message::Authorize(false))
                }
            },
            Message::FileBuffer(fb) => {
                let ghost open0 = self.backup_files@;
                let ghost done0 = self.completed_files@;
                match chunk_kind(fb) {
                    ChunkKind::Begin => {
                        let content = slice_to_vec(fb.buffer.as_slice());
                        self.backup_files.insert(fb.file_name.clone(), content);
                        proof {
                            assert(self.backup_files@.map_values(|v: Vec<u8>| v@)
                                =~= open0.map_values(|v: Vec<u8>| v@).insert(
                                fb.file_name@,
                                fb.buffer@,
                            ));
                        }
                    },
                    ChunkKind::BeginAndEnd => {
                        let content = slice_to_vec(fb.buffer.as_slice());
                        self.completed_files.insert(fb.file_name.clone(), content);
                        let _ = self.backup_files.take(&fb.file_name);
                        proof {
                            assert(self.completed_files@.map_values(|v: Vec<u8>| v@)
                                =~= done0.map_values(|v: Vec<u8>| v@).insert(
                                fb.file_name@,
                                fb.buffer@,
                            ));
                            assert(self.backup_files@.map_values(|v: Vec<u8>| v@)
                                =~= open0.map_values(|v: Vec<u8>| v@).remove(fb.file_name@));
                        }
                    },
                    ChunkKind::Middle => {
                        match self.backup_files.take(&fb.file_name) {
                            Some(mut buf) => {
                                proof {
                                    assert(open0.contains_key(fb.file_name@));
                                    assert(open0.map_values(|v: Vec<u8>| v@)[fb.file_name@]
                                        == open0[fb.file_name@]@);
                                    assert(buf@ == open0[fb.file_name@]@);
                                }
                                buf.extend_from_slice(fb.buffer.as_slice());
                                let ghost bufv = buf@;
                                self.backup_files.insert(fb.file_name.clone(), buf);
                                proof {
                                    assert(bufv == open0[fb.file_name@]@ + fb.buffer@);
                                    assert(self.backup_files@ == open0.remove(
                                        fb.file_name@,
                                    ).insert(fb.file_name@, self.backup_files@[fb.file_name@]));
                                    assert(self.backup_files@[fb.file_name@]@ == bufv);
                                    assert(self.backup_files@.map_values(|v: Vec<u8>| v@)
                                        =~= open0.map_values(|v: Vec<u8>| v@).insert(
                                        fb.file_name@,
                                        bufv,
                                    ));
                                }
                            },
                            None => {
                                proof {
                                    assert(self.backup_files@.map_values(|v: Vec<u8>| v@)
                                        =~= open0.map_values(|v: Vec<u8>| v@));
                                }
                            },
                        }
                    },
                    ChunkKind::End => {
                        match self.backup_files.take(&fb.file_name) {
                            Some(mut buf) => {
                                proof {
                                    assert(open0.contains_key(fb.file_name@));
                                    assert(open0.map_values(|v: Vec<u8>| v@)[fb.file_name@]
                                        == open0[fb.file_name@]@);
                                    assert(buf@ == open0[fb.file_name@]@);
                                }
                                buf.extend_from_slice(fb.buffer.as_slice());
                                let ghost bufv = buf@;
                                self.completed_files.insert(fb.file_name.clone(), buf);
                                proof {
                                    assert(bufv == open0[fb.file_name@]@ + fb.buffer@);
                                    assert(self.completed_files@[fb.file_name@]@ == bufv);
                                    assert(self.completed_files@.map_values(|v: Vec<u8>| v@)
                                        =~= done0.map_values(|v: Vec<u8>| v@).insert(
                                        fb.file_name@,
                                        bufv,
                                    ));
                                    assert(self.backup_files@.map_values(|v: Vec<u8>| v@)
                                        =~= open0.map_values(|v: Vec<u8>| v@).remove(
                                        fb.file_name@,
                                    ));
                                }
                            },
                            None => {
                                proof {
                                    assert(self.backup_files@.map_values(|v: Vec<u8>| v@)
                                        =~= open0.map_values(|v: Vec<u8>| v@));
                                }
                            },
                        }
                    },
                }
                HandlerAction::Silent
            },
            _ => HandlerAction::Silent,
        }
    }
}

/// The client side of the handshake and upload: holds the archive to ship
/// and the local completion flag the job task waits on.
pub struct BackerHandle {
    archive_file: FileInfo,
    completed: bool,
}

impl BackerHandle {
    /// The name the archive travels under.
    pub closed spec fn archive_name(&self) -> Seq<char> {
        self.archive_file.file_name@
    }

    /// The archive's content.
    pub closed spec fn archive_data(&self) -> Seq<u8> {
        self.archive_file.file_data@
    }

    /// Whether the transfer has reached its local end.
    pub closed spec fn spec_completed(&self) -> bool {
        self.completed
    }

    /// A handler ready to ship `archive_file` once authorized.
    pub fn new(archive_file: FileInfo) -> (r: Self)
        ensures
            r.archive_name() == archive_file.file_name@,
            r.archive_data() == archive_file.file_data@,
            !r.spec_completed(),
    {
        Self { archive_file, completed: false }
    }

    /// Whether the transfer has reached its local end; the job task that
    /// started the transfer waits on this flag.
    pub fn is_completed(&self) -> (r: bool)
        ensures
            r == self.spec_completed(),
    {
        self.completed
    }

    /// One step of the client state machine.
    ///
    /// On `Authorize(true)` the archive is cut into chunks of at most
    /// `MAX_BUFFER_LENGTH` bytes and the chunk messages to send are handed
    /// back in emission order; on `Authorize(false)` nothing is sent. Both
    /// answers end the transfer locally. Every other message changes
    /// nothing and sends nothing.
    pub fn handle(&mut self, message: &Message) -> (sends: Vec<Message>)
        ensures
            final(self).archive_name() == old(self).archive_name(),
            final(self).archive_data() == old(self).archive_data(),
            match message@ {
                MessageView::Authorize(granted) => final(self).spec_completed() && (if granted {
                    sends@.len() == num_chunks(
                        old(self).archive_data().len() as int,
                        MAX_BUFFER_LENGTH as int,
                    ) && (forall|i: int|
                        0 <= i < sends@.len() ==> sends@[i]@ == MessageView::FileBuffer(
                            #[trigger] spec_cut(
                                old(self).archive_name(),
                                old(self).archive_data(),
                                MAX_BUFFER_LENGTH as int,
                            )[i],
                        ))
                } else {
                    sends@.len() == 0
                }),
                _ => sends@.len() == 0 && final(self).spec_completed() == old(
                    self,
                ).spec_completed(),
            },
    {
        match message {
            Message::Authorize(granted) => {
                let mut sends: Vec<Message> = Vec::new();
                if *granted {
                    let ghost cut = spec_cut(
                        self.archive_file.file_name@,
                        self.archive_file.file_data@,
                        MAX_BUFFER_LENGTH as int,
                    );
                    let fb = FileBuffer::new(
                        self.archive_file.file_name.clone(),
                        slice_to_vec((*self.archive_file.file_data).as_slice()),
                    );
                    let mut chunks = fb.cut_file_buff(MAX_BUFFER_LENGTH);
                    let ghost total = chunks@.len();
                    proof {
                        assert(spec_cut(fb@.file_name, fb@.buffer, MAX_BUFFER_LENGTH as int)
                            == cut);
                        assert forall|i: int| 0 <= i < total implies chunks@[i]@ == cut[i] by {
                            assert(chunks@[i]@ == spec_cut(
                                fb@.file_name,
                                fb@.buffer,
                                MAX_BUFFER_LENGTH as int,
                            )[i]);
                        }
                    }
                    while chunks.len() > 0
                        invariant
                            sends@.len() + chunks@.len() == total,
                            total == cut.len(),
                            forall|i: int|
                                0 <= i < chunks@.len() ==> #[trigger] chunks@[i]@ == cut[
                                    i + sends@.len()],
                            forall|i: int|
                                0 <= i < sends@.len() ==> #[trigger] sends@[i]@
                                    == MessageView::FileBuffer(cut[i]),
                        decreases chunks@.len(),
                    {
                        let piece = chunks.remove(0);
                        sends.push(Message::FileBuffer(piece));
                    }
                }
                self.completed = true;
                sends
            },
            _ => Vec::new(),
        }
    }
}

/// The two file tables after one chunk: the function form of the server's
/// chunk transition, agreeing with `chunk_step` by
/// `lemma_chunk_step_applies`.
pub open spec fn spec_apply_chunk(
    open: Map<Seq<char>, Seq<u8>>,
    done: Map<Seq<char>, Seq<u8>>,
    c: ChunkView,
) -> (Map<Seq<char>, Seq<u8>>, Map<Seq<char>, Seq<u8>>) {
    match spec_chunk_kind(c) {
        ChunkKind::Begin => (open.insert(c.file_name, c.buffer), done),
        ChunkKind::BeginAndEnd => (open.remove(c.file_name), done.insert(c.file_name, c.buffer)),
        ChunkKind::Middle => if open.contains_key(c.file_name) {
            (open.insert(c.file_name, open[c.file_name] + c.buffer), done)
        } else {
            (open, done)
        },
        ChunkKind::End => if open.contains_key(c.file_name) {
            (open.remove(c.file_name), done.insert(c.file_name, open[c.file_name] + c.buffer))
        } else {
            (open, done)
        },
    }
}

/// What one `handle` of a chunk ensures is exactly one application of the
/// functional transition `spec_apply_chunk`.
pub proof fn lemma_chunk_step_applies(
    pre: BackerServerHandle,
    post: BackerServerHandle,
    c: ChunkView,
)
    requires
        BackerServerHandle::chunk_step(pre, post, c),
    ensures
        post.open_files() == spec_apply_chunk(pre.open_files(), pre.completed_files(), c).0,
        post.completed_files() == spec_apply_chunk(pre.open_files(), pre.completed_files(), c).1,
{
}

/// The two file tables after a whole chunk stream, first chunk first.
pub open spec fn spec_apply_chunks(
    open: Map<Seq<char>, Seq<u8>>,
    done: Map<Seq<char>, Seq<u8>>,
    chunks: Seq<ChunkView>,
) -> (Map<Seq<char>, Seq<u8>>, Map<Seq<char>, Seq<u8>>)
    decreases chunks.len(),
{
    if chunks.len() == 0 {
        (open, done)
    } else {
        let next = spec_apply_chunk(open, done, chunks.first());
        spec_apply_chunks(next.0, next.1, chunks.drop_first())
    }
}

proof fn lemma_apply_chunks_append(
    open: Map<Seq<char>, Seq<u8>>,
    done: Map<Seq<char>, Seq<u8>>,
    a: Seq<ChunkView>,
    b: Seq<ChunkView>,
)
    ensures
        spec_apply_chunks(open, done, a + b) == ({
            let mid = spec_apply_chunks(open, done, a);
            spec_apply_chunks(mid.0, mid.1, b)
        }),
    decreases a.len(),
{
    if a.len() == 0 {
        assert(a + b =~= b);
    } else {
        assert((a + b).first() == a.first());
        assert((a + b).drop_first() =~= a.drop_first() + b);
        let next = spec_apply_chunk(open, done, a.first());
        lemma_apply_chunks_append(next.0, next.1, a.drop_first(), b);
    }
}

proof fn lemma_assembly_prefix(
    open: Map<Seq<char>, Seq<u8>>,
    done: Map<Seq<char>, Seq<u8>>,
    name: Seq<char>,
    data: Seq<u8>,
    size: int,
    k: int,
)
    requires
        size >= 1,
        data.len() >= 1,
        1 <= k <= num_chunks(data.len() as int, size) - 1,
    ensures
        spec_apply_chunks(open, done, spec_cut(name, data, size).take(k)) == (
        open.insert(name, data.take(k * size)),
        done,
        ),
    decreases k,
{
    let cut = spec_cut(name, data, size);
    let len = data.len() as int;
    let n = num_chunks(len, size);
    lemma_num_chunks_bounds(len, size);
    vstd::arithmetic::mul::lemma_mul_inequality(k, n - 1, size);
    assert(k * size <= (n - 1) * size <= len - 1);
    if k == 1 {
        // the first chunk begins the file: the open entry becomes its bytes
        assert(cut.take(1).first() == cut[0]);
        assert(cut.take(1).drop_first() =~= Seq::<ChunkView>::empty());
        assert(spec_chunk_kind(cut[0]) == ChunkKind::Begin);
        assert(1 * size == size) by (nonlinear_arith);
        assert(0 * size == 0) by (nonlinear_arith);
        assert(chunk_end(0, len, size) == size);
        assert(cut[0].buffer =~= data.take(size));
        let first_applied = spec_apply_chunk(open, done, cut[0]);
        assert(first_applied.0 == open.insert(name, cut[0].buffer));
        assert(first_applied.1 == done);
        assert(spec_apply_chunks(open, done, cut.take(1)) == spec_apply_chunks(
            first_applied.0,
            first_applied.1,
            Seq::<ChunkView>::empty(),
        ));
        assert(spec_apply_chunks(open, done, cut.take(k)) == (
        open.insert(name, data.take(k * size)),
        done,
        ));
    } else {
        lemma_assembly_prefix(open, done, name, data, size, k - 1);
        assert(cut.take(k) =~= cut.take(k - 1) + seq![cut[k - 1]]);
        lemma_apply_chunks_append(open, done, cut.take(k - 1), seq![cut[k - 1]]);
        // chunk k-1 is a middle chunk: it appends to the open entry
        assert(spec_chunk_kind(cut[k - 1]) == ChunkKind::Middle);
        let mid = (open.insert(name, data.take((k - 1) * size)), done);
        assert(spec_apply_chunks(open, done, cut.take(k - 1)) == mid);
        assert(mid.0.contains_key(name));
        assert(mid.0[name] == data.take((k - 1) * size));
        assert((k - 1) * size + size == k * size) by (nonlinear_arith);
        vstd::arithmetic::mul::lemma_mul_inequality(k - 1, n - 1, size);
        assert(chunk_end(k - 1, len, size) == k * size);
        assert(cut[k - 1].buffer =~= data.subrange((k - 1) * size, k * size));
        assert(data.take((k - 1) * size) + data.subrange((k - 1) * size, k * size) =~= data.take(
            k * size,
        ));
        let single = seq![cut[k - 1]];
        assert(single.first() == cut[k - 1]);
        assert(single.drop_first() =~= Seq::<ChunkView>::empty());
        let stepped = spec_apply_chunk(mid.0, mid.1, cut[k - 1]);
        assert(spec_apply_chunks(mid.0, mid.1, single) == spec_apply_chunks(
            stepped.0,
            stepped.1,
            Seq::<ChunkView>::empty(),
        ));
        assert(stepped.0 == mid.0.insert(name, mid.0[name] + cut[k - 1].buffer));
        assert(mid.0[name] + cut[k - 1].buffer == data.take(k * size));
        assert(mid.0.insert(name, data.take(k * size)) =~= open.insert(name, data.take(k * size)));
        assert(spec_apply_chunks(open, done, cut.take(k)) == (
        open.insert(name, data.take(k * size)),
        done,
        ));
    }
}

/// Server file assembly: a server fed, in order, every chunk of cutting a
/// nonempty buffer `data` under `name` at chunk size `size` ends with
/// exactly `data` completed under `name`, and no entry left open for
/// `name` — whatever else the two tables held before.
pub proof fn lemma_server_assembles_cut(
    open: Map<Seq<char>, Seq<u8>>,
    done: Map<Seq<char>, Seq<u8>>,
    name: Seq<char>,
    data: Seq<u8>,
    size: int,
)
    requires
        size >= 1,
        data.len() >= 1,
    ensures
        spec_apply_chunks(open, done, spec_cut(name, data, size)).0 == open.remove(name),
        spec_apply_chunks(open, done, spec_cut(name, data, size)).1 == done.insert(name, data),
{
    let cut = spec_cut(name, data, size);
    let len = data.len() as int;
    let n = num_chunks(len, size);
    lemma_num_chunks_bounds(len, size);
    if n == 1 {
        // one chunk, flagged both begin and end, carrying all of data
        assert(cut.first() == cut[0]);
        assert(cut.drop_first() =~= Seq::<ChunkView>::empty());
        assert(spec_chunk_kind(cut[0]) == ChunkKind::BeginAndEnd);
        assert(1 * size == size) by (nonlinear_arith);
        assert(0 * size == 0) by (nonlinear_arith);
        assert(chunk_end(0, len, size) == len);
        assert(cut[0].buffer =~= data.take(len));
        assert(data.take(len) =~= data);
        let stepped = spec_apply_chunk(open, done, cut[0]);
        assert(stepped.0 == open.remove(name));
        assert(stepped.1 == done.insert(name, data));
        assert(spec_apply_chunks(open, done, cut) == spec_apply_chunks(
            stepped.0,
            stepped.1,
            Seq::<ChunkView>::empty(),
        ));
    } else {
        lemma_assembly_prefix(open, done, name, data, size, n - 1);
        assert(cut =~= cut.take(n - 1) + seq![cut[n - 1]]);
        lemma_apply_chunks_append(open, done, cut.take(n - 1), seq![cut[n - 1]]);
        // the last chunk ends the file: append and move to completed
        assert(spec_chunk_kind(cut[n - 1]) == ChunkKind::End);
        let mid = (open.insert(name, data.take((n - 1) * size)), done);
        assert(spec_apply_chunks(open, done, cut.take(n - 1)) == mid);
        assert(mid.0.contains_key(name));
        assert(mid.0[name] == data.take((n - 1) * size));
        assert(chunk_end(n - 1, len, size) == len);
        assert(cut[n - 1].buffer =~= data.subrange((n - 1) * size, len));
        assert(data.take((n - 1) * size) + data.subrange((n - 1) * size, len) =~= data);
        let single = seq![cut[n - 1]];
        assert(single.first() == cut[n - 1]);
        assert(single.drop_first() =~= Seq::<ChunkView>::empty());
        let stepped = spec_apply_chunk(mid.0, mid.1, cut[n - 1]);
        assert(spec_apply_chunks(mid.0, mid.1, single) == spec_apply_chunks(
            stepped.0,
            stepped.1,
            Seq::<ChunkView>::empty(),
        ));
        assert(stepped.0 == mid.0.remove(name));
        assert(stepped.1 == mid.1.insert(name, mid.0[name] + cut[n - 1].buffer));
        assert(mid.0[name] + cut[n - 1].buffer == data);
        assert(mid.0.remove(name) =~= open.remove(name));
        assert(spec_apply_chunks(open, done, cut).0 == open.remove(name));
        assert(spec_apply_chunks(open, done, cut).1 == done.insert(name, data));
    }
}

} // verus!
