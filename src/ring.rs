use crate::addr::SockAddr;
use crate::error::RingError;
use crate::layout::{is_timespec_layout, push_all, timespec_layout};
use crate::registry::{Pinned, Registry};
use vstd::prelude::*;
use vstd::string::StringSliceAdditionalSpecFns;

verus! {

/// Where a ring stands in its life.
#[derive(Debug, Clone, Copy, PartialEq, Eq, Structural)]
pub enum RingState {
    /// Constructed, not yet connected to the kernel.
    Uninitialized,
    /// Connected to the kernel: operations may be prepared and drained.
    Active,
    /// Torn down; nothing may be done with it any more.
    Closed,
}

/// One finished operation: its identifier, the kernel's result code and flags.
#[derive(Debug, Clone, Copy, PartialEq, Eq, Structural)]
pub struct CompletionEvent {
    pub user_data: u64,
    pub res: i32,
    pub flags: u32,
}

/// The operation a submission entry asks the kernel for, with the plain
/// parameters it carries. Memory the kernel reads or writes is not in here:
/// it is pinned in the ring's registry under the entry's identifier.
#[derive(Debug, Clone, Copy, PartialEq, Eq, Structural)]
pub enum Op {
    Nop,
    /// Completes after the pinned timeout specification elapses.
    Timeout,
    /// Reads up to `len` bytes at `offset` into the pinned mutable buffer.
    Read { fd: i32, len: u32, offset: u64 },
    /// Writes `len` bytes of the pinned immutable buffer at `offset`.
    Write { fd: i32, len: u32, offset: u64 },
    /// Opens the pinned path relative to `dir_fd`.
    OpenAt { dir_fd: i32, flags: i32, mode: u32 },
    Close { fd: i32 },
    /// Cancels the in-flight operation with identifier `target`.
    Cancel { target: u64 },
    Socket { domain: i32, sock_type: i32, protocol: i32 },
    /// Receives up to `len` bytes into the pinned mutable buffer.
    Recv { fd: i32, len: u32, msg_flags: u32 },
    /// Sends `len` bytes of the pinned immutable buffer.
    Send { fd: i32, len: u32, msg_flags: u32 },
    /// Binds `fd` to the pinned socket address.
    Bind { fd: i32 },
    Listen { fd: i32, backlog: i32 },
    /// Accepts a connection on `fd`, without capturing the peer's address.
    Accept { fd: i32 },
    /// Connects `fd` to the pinned socket address.
    Connect { fd: i32 },
    /// Sets the socket option that allows address reuse on `fd`.
    SetReuseAddr { fd: i32 },
}

/// A submission entry ready to be pushed onto the kernel's submission queue.
#[derive(Debug, Clone, Copy, PartialEq, Eq, Structural)]
pub struct Submission {
    pub user_data: u64,
    pub op: Op,
}

/// `s` is `path`'s bytes followed by a terminating null byte.
pub open spec fn is_c_path(s: Seq<u8>, path: Seq<u8>) -> bool {
    s == path.push(0u8)
}

/// The smaller of a requested byte count and a buffer's length.
pub open spec fn clamp_len(nbytes: u32, buf_len: usize) -> u32 {
    if (nbytes as int) <= (buf_len as int) {
        nbytes
    } else {
        buf_len as u32
    }
}

/// `path`'s bytes with a terminating null byte, or `None` where `path` holds
/// a null byte of its own.
pub fn c_path_of(path: &str) -> (r: Option<Vec<u8>>)
    ensures
        r matches Some(v) ==> !path.spec_bytes().contains(0u8) && is_c_path(v@, path.spec_bytes()),
        r is None ==> path.spec_bytes().contains(0u8),
{
    let bytes = path.as_bytes();
    let mut v: Vec<u8> = Vec::new();
    let mut i: usize = 0;
    while i < bytes.len()
        invariant
            0 <= i <= bytes@.len(),
            bytes@ == path.spec_bytes(),
            v@ == bytes@.subrange(0, i as int),
            forall|k: int| 0 <= k < i ==> bytes@[k] != 0u8,
        decreases bytes@.len() - i,
    {
        if bytes[i] == 0u8 {
            return None;
        }
        v.push(bytes[i]);
        i = i + 1;
        assert(v@ =~= bytes@.subrange(0, i as int));
    }
    assert(bytes@.subrange(0, bytes@.len() as int) =~= bytes@);
    v.push(0u8);
    Some(v)
}

/// `after` keeps `before`'s state and depth, and its pinned resources are `p`.
pub open spec fn keeps_state_with<B>(before: Ring<B>, after: Ring<B>, p: Map<u64, Pinned<B>>) -> bool {
    &&& after.spec_state() == before.spec_state()
    &&& after.spec_depth() == before.spec_depth()
    &&& after.pinned() == p
}

/// Draining the completion `c` took `before` to `after`: whatever was pinned
/// under `c`'s identifier is gone, and nothing else changed.
pub open spec fn drained<B>(before: Ring<B>, after: Ring<B>, c: CompletionEvent) -> bool {
    keeps_state_with(before, after, before.pinned().remove(c.user_data))
}

/// What every preparation of an entry that pins nothing does: on an active
/// ring it yields `sub` and changes nothing, otherwise it fails with
/// `NotInitialized` and changes nothing.
pub open spec fn prepared_plain<B>(
    before: Ring<B>,
    after: Ring<B>,
    r: Result<Submission, RingError>,
    sub: Submission,
) -> bool {
    &&& keeps_state_with(before, after, before.pinned())
    &&& if before.spec_state() == RingState::Active {
        r == Ok::<Submission, RingError>(sub)
    } else {
        r == Err::<Submission, RingError>(RingError::NotInitialized)
    }
}

/// What every preparation of an entry that pins `res` does: on an active ring
/// it pins `res` under the entry's identifier, replacing what was pinned there,
/// and yields `sub`; otherwise it fails with `NotInitialized` and changes
/// nothing.
pub open spec fn prepared_pinning<B>(
    before: Ring<B>,
    after: Ring<B>,
    r: Result<Submission, RingError>,
    sub: Submission,
    res: Pinned<B>,
) -> bool {
    if before.spec_state() == RingState::Active {
        &&& r == Ok::<Submission, RingError>(sub)
        &&& keeps_state_with(before, after, before.pinned().insert(sub.user_data, res))
    } else {
        &&& r == Err::<Submission, RingError>(RingError::NotInitialized)
        &&& keeps_state_with(before, after, before.pinned())
    }
}

/// Like `prepared_pinning`, where the pinned resource is built by the
/// preparation: on an active ring, something is pinned under the identifier
/// and the rest of the map is kept.
pub open spec fn prepared_pinning_built<B>(
    before: Ring<B>,
    after: Ring<B>,
    r: Result<Submission, RingError>,
    sub: Submission,
) -> bool {
    if before.spec_state() == RingState::Active {
        &&& r == Ok::<Submission, RingError>(sub)
        &&& after.pinned().contains_key(sub.user_data)
        &&& keeps_state_with(
            before,
            after,
            before.pinned().insert(sub.user_data, after.pinned()[sub.user_data]),
        )
    } else {
        &&& r == Err::<Submission, RingError>(RingError::NotInitialized)
        &&& keeps_state_with(before, after, before.pinned())
    }
}

/// A read's buffer is pinned under the read's identifier once the read is
/// prepared, and draining a completion with that identifier releases it:
/// afterwards it is absent, and every other pinned resource is as it was.
pub proof fn lemma_read_buffer_released_on_drain<B>(
    r0: Ring<B>,
    r1: Ring<B>,
    r2: Ring<B>,
    user_data: u64,
    fd: i32,
    buf: B,
    buf_len: usize,
    nbytes: u32,
    offset: u64,
    prepared: Result<Submission, RingError>,
    c: CompletionEvent,
)
    requires
        r0.spec_state() == RingState::Active,
        prepared_pinning(
            r0,
            r1,
            prepared,
            Submission { user_data, op: Op::Read { fd, len: clamp_len(nbytes, buf_len), offset } },
            Pinned::MutableBuffer(buf),
        ),
        c.user_data == user_data,
        drained(r1, r2, c),
    ensures
        prepared is Ok,
        r1.pinned().contains_key(user_data),
        r1.pinned()[user_data] == Pinned::<B>::MutableBuffer(buf),
        !r2.pinned().contains_key(user_data),
        r2.pinned() == r0.pinned().remove(user_data),
{
    assert(r2.pinned() =~= r0.pinned().remove(user_data));
}

/// Pinning under an identifier that already holds a resource replaces that
/// resource, and draining two completions with that identifier releases the
/// survivor once: the first drain removes it, the second changes nothing.
pub proof fn lemma_repin_replaces_and_second_drain_is_noop<B>(
    r0: Ring<B>,
    r1: Ring<B>,
    r2: Ring<B>,
    r3: Ring<B>,
    r4: Ring<B>,
    user_data: u64,
    first: Pinned<B>,
    second: Pinned<B>,
    s1: Submission,
    s2: Submission,
    first_prep: Result<Submission, RingError>,
    second_prep: Result<Submission, RingError>,
    c1: CompletionEvent,
    c2: CompletionEvent,
)
    requires
        r0.spec_state() == RingState::Active,
        s1.user_data == user_data,
        s2.user_data == user_data,
        prepared_pinning(r0, r1, first_prep, s1, first),
        prepared_pinning(r1, r2, second_prep, s2, second),
        c1.user_data == user_data,
        c2.user_data == user_data,
        drained(r2, r3, c1),
        drained(r3, r4, c2),
    ensures
        r2.pinned() == r0.pinned().insert(user_data, second),
        r3.pinned() == r0.pinned().remove(user_data),
        r4.pinned() == r3.pinned(),
        r4.spec_state() == RingState::Active,
{
    assert(r2.pinned() =~= r0.pinned().insert(user_data, second));
    assert(r3.pinned() =~= r0.pinned().remove(user_data));
    assert(r4.pinned() =~= r3.pinned());
}

/// The engine of one kernel I/O ring.
///
/// Its model is its lifecycle state, its configured queue depth, and the map
/// of resources pinned by identifier. `B` is the caller's handle on a byte
/// buffer. The kernel calls themselves (setting the ring up, pushing an entry,
/// submitting, waiting, reading the completion queue) are made by the caller,
/// who hands their outcome to the matching method here.
pub struct Ring<B> {
    state: RingState,
    depth: u32,
    registry: Registry<B>,
}

impl<B> Ring<B> {
    pub closed spec fn spec_state(&self) -> RingState {
        self.state
    }

    pub closed spec fn spec_depth(&self) -> u32 {
        self.depth
    }

    /// The resources pinned under each identifier.
    pub closed spec fn pinned(&self) -> Map<u64, Pinned<B>> {
        self.registry@
    }

    /// A ring of the given queue depth, not yet connected to the kernel.
    pub fn new(depth: u32) -> (r: Self)
        ensures
            r.spec_state() == RingState::Uninitialized,
            r.spec_depth() == depth,
            r.pinned() == Map::<u64, Pinned<B>>::empty(),
    {
        Ring { state: RingState::Uninitialized, depth, registry: Registry::new() }
    }

    pub fn state(&self) -> (r: RingState)
        ensures
            r == self.spec_state(),
    {
        self.state
    }

    /// The queue depth the kernel ring is set up with.
    pub fn depth(&self) -> (r: u32)
        ensures
            r == self.spec_depth(),
    {
        self.depth
    }

    /// The number of pinned resources.
    pub fn pinned_count(&self) -> (r: usize)
        ensures
            r == self.pinned().len(),
    {
        self.registry.len()
    }

    /// Whether a resource is pinned under `user_data`.
    pub fn is_pinned(&self, user_data: u64) -> (r: bool)
        ensures
            r == self.pinned().contains_key(user_data),
    {
        self.registry.is_pinned(user_data)
    }

    /// The resource pinned under `user_data`, whose address goes into the
    /// submission entry with that identifier.
    pub fn pinned_resource(&self, user_data: u64) -> (r: Option<&Pinned<B>>)
        ensures
            r matches Some(p) ==> self.pinned().contains_key(user_data) && *p
                == self.pinned()[user_data],
            r is None ==> !self.pinned().contains_key(user_data),
    {
        self.registry.get(user_data)
    }

    /// Lifecycle entry. `setup` is the outcome of setting the kernel ring up
    /// with `depth()` entries: nothing, or the kernel's message. On success
    /// the ring is active; on failure nothing changes.
    pub fn enter(&mut self, setup: Result<(), String>) -> (r: Result<(), RingError>)
        ensures
            final(self).spec_depth() == old(self).spec_depth(),
            final(self).pinned() == old(self).pinned(),
            match setup {
                Ok(_) => r is Ok && final(self).spec_state() == RingState::Active,
                Err(m) => r == Err::<(), RingError>(RingError::KernelSetupFailed(m))
                    && final(self).spec_state() == old(self).spec_state(),
            },
    {
        match setup {
            Ok(()) => {
                self.state = RingState::Active;
                Ok(())
            },
            Err(m) => Err(RingError::KernelSetupFailed(m)),
        }
    }

    /// Lifecycle exit: drops every pinned resource and closes the ring,
    /// whatever was still in flight. Never fails.
    pub fn exit(&mut self)
        ensures
            final(self).spec_state() == RingState::Closed,
            final(self).spec_depth() == old(self).spec_depth(),
            final(self).pinned() == Map::<u64, Pinned<B>>::empty(),
    {
        self.registry.clear_all();
        self.state = RingState::Closed;
    }

    /// Fails with `NotInitialized` unless the ring is active. The kernel ring
    /// may be used only after this succeeds.
    pub fn require_active(&self) -> (r: Result<(), RingError>)
        ensures
            r is Ok <==> self.spec_state() == RingState::Active,
            r is Err ==> r == Err::<(), RingError>(RingError::NotInitialized),
    {
        if self.state == RingState::Active {
            Ok(())
        } else {
            Err(RingError::NotInitialized)
        }
    }

    /// The result of handing the queued entries to the kernel. `outcome` is
    /// the number the kernel accepted, or its message.
    pub fn submit(&self, outcome: Result<u32, String>) -> (r: Result<u32, RingError>)
        ensures
            self.spec_state() != RingState::Active ==> r == Err::<u32, RingError>(
                RingError::NotInitialized,
            ),
            self.spec_state() == RingState::Active ==> match outcome {
                Ok(n) => r == Ok::<u32, RingError>(n),
                Err(m) => r == Err::<u32, RingError>(RingError::KernelSubmitFailed(m)),
            },
    {
        self.require_active()?;
        match outcome {
            Ok(n) => Ok(n),
            Err(m) => Err(RingError::KernelSubmitFailed(m)),
        }
    }

    /// Turns a drained completion into its record, dropping what was pinned
    /// for it.
    fn complete(&mut self, cqe: CompletionEvent) -> (r: CompletionEvent)
        ensures
            r == cqe,
            drained(*old(self), *final(self), cqe),
    {
        self.registry.release(cqe.user_data);
        cqe
    }

    /// Non-blocking look at the completion queue. `next` is the entry at its
    /// head, if any, which this drains: its pinned resource is dropped and its
    /// record returned. An empty queue gives `Ok(None)`.
    pub fn peek(&mut self, next: Option<CompletionEvent>) -> (r: Result<
        Option<CompletionEvent>,
        RingError,
    >)
        ensures
            old(self).spec_state() != RingState::Active ==> r == Err::<
                Option<CompletionEvent>,
                RingError,
            >(RingError::NotInitialized) && keeps_state_with(
                *old(self),
                *final(self),
                old(self).pinned(),
            ),
            old(self).spec_state() == RingState::Active ==> r == Ok::<
                Option<CompletionEvent>,
                RingError,
            >(next) && match next {
                Some(c) => drained(*old(self), *final(self), c),
                None => keeps_state_with(*old(self), *final(self), old(self).pinned()),
            },
    {
        self.require_active()?;
        match next {
            Some(c) => Ok(Some(self.complete(c))),
            None => Ok(None),
        }
    }

    /// The end of a blocking wait for one completion. `waited` is the outcome
    /// of the kernel's submit-and-wait call, `next` the entry then at the
    /// head of the completion queue, which this drains. Exactly one record
    /// comes back, or an error.
    pub fn wait(&mut self, waited: Result<(), String>, next: Option<CompletionEvent>) -> (r: Result<
        CompletionEvent,
        RingError,
    >)
        ensures
            old(self).spec_state() != RingState::Active ==> r == Err::<
                CompletionEvent,
                RingError,
            >(RingError::NotInitialized),
            old(self).spec_state() == RingState::Active ==> match (waited, next) {
                (Err(m), _) => r == Err::<CompletionEvent, RingError>(
                    RingError::KernelWaitFailed(m),
                ),
                (Ok(_), None) => r == Err::<CompletionEvent, RingError>(
                    RingError::NoCompletionAfterWait,
                ),
                (Ok(_), Some(c)) => r == Ok::<CompletionEvent, RingError>(c),
            },
            match r {
                Ok(c) => drained(*old(self), *final(self), c),
                Err(_) => keeps_state_with(*old(self), *final(self), old(self).pinned()),
            },
    {
        self.require_active()?;
        if let Err(m) = waited {
            return Err(RingError::KernelWaitFailed(m));
        }
        match next {
            Some(c) => Ok(self.complete(c)),
            None => Err(RingError::NoCompletionAfterWait),
        }
    }

    /// A no-op entry.
    pub fn prep_nop(&mut self, user_data: u64) -> (r: Result<Submission, RingError>)
        ensures
            prepared_plain(*old(self), *final(self), r, Submission { user_data, op: Op::Nop }),
    {
        self.require_active()?;
        Ok(Submission { user_data, op: Op::Nop })
    }

    /// A timeout of `sec` seconds and `nsec` nanoseconds; the specification
    /// is pinned in the kernel's layout.
    pub fn prep_timeout(&mut self, user_data: u64, sec: u64, nsec: u32) -> (r: Result<
        Submission,
        RingError,
    >)
        ensures
            prepared_pinning_built(
                *old(self),
                *final(self),
                r,
                Submission { user_data, op: Op::Timeout },
            ),
            r is Ok ==> (final(self).pinned()[user_data] matches Pinned::Timeout(v)
                && is_timespec_layout(v@, sec, nsec)),
    {
        self.require_active()?;
        let ts = timespec_layout(sec, nsec);
        self.registry.pin(user_data, Pinned::Timeout(ts));
        Ok(Submission { user_data, op: Op::Timeout })
    }

    /// A read of up to `nbytes` bytes at `offset` into `buf`, whose length is
    /// `buf_len`: the count is clamped to the buffer. `buf` stays pinned until
    /// the completion is drained.
    pub fn prep_read(
        &mut self,
        user_data: u64,
        fd: i32,
        buf: B,
        buf_len: usize,
        nbytes: u32,
        offset: u64,
    ) -> (r: Result<Submission, RingError>)
        ensures
            prepared_pinning(
                *old(self),
                *final(self),
                r,
                Submission {
                    user_data,
                    op: Op::Read { fd, len: clamp_len(nbytes, buf_len), offset },
                },
                Pinned::MutableBuffer(buf),
            ),
    {
        self.require_active()?;
        let len: u32 = if (nbytes as u64) <= (buf_len as u64) {
            nbytes
        } else {
            buf_len as u32
        };
        self.registry.pin(user_data, Pinned::MutableBuffer(buf));
        Ok(Submission { user_data, op: Op::Read { fd, len, offset } })
    }

    /// A write of all of `buf`, whose length is `buf_len`, at `offset`.
    pub fn prep_write(&mut self, user_data: u64, fd: i32, buf: B, buf_len: usize, offset: u64) -> (r:
        Result<Submission, RingError>)
        requires
            buf_len <= u32::MAX,
        ensures
            prepared_pinning(
                *old(self),
                *final(self),
                r,
                Submission { user_data, op: Op::Write { fd, len: buf_len as u32, offset } },
                Pinned::ImmutableBuffer(buf),
            ),
    {
        self.require_active()?;
        self.registry.pin(user_data, Pinned::ImmutableBuffer(buf));
        Ok(Submission { user_data, op: Op::Write { fd, len: buf_len as u32, offset } })
    }

    /// An open of `path` relative to `dir_fd`. A path with an embedded null
    /// byte fails with `InvalidPath` and changes nothing; otherwise the path
    /// is pinned with a terminating null byte.
    pub fn prep_openat(
        &mut self,
        user_data: u64,
        path: &str,
        flags: i32,
        mode: u32,
        dir_fd: i32,
    ) -> (r: Result<Submission, RingError>)
        ensures
            old(self).spec_state() == RingState::Active && path.spec_bytes().contains(0u8) ==> r
                == Err::<Submission, RingError>(RingError::InvalidPath) && keeps_state_with(
                *old(self),
                *final(self),
                old(self).pinned(),
            ),
            !(old(self).spec_state() == RingState::Active && path.spec_bytes().contains(0u8))
                ==> prepared_pinning_built(
                *old(self),
                *final(self),
                r,
                Submission { user_data, op: Op::OpenAt { dir_fd, flags, mode } },
            ),
            r is Ok ==> (final(self).pinned()[user_data] matches Pinned::Path(v) && is_c_path(
                v@,
                path.spec_bytes(),
            )),
    {
        self.require_active()?;
        let c_path = match c_path_of(path) {
            Some(p) => p,
            None => return Err(RingError::InvalidPath),
        };
        self.registry.pin(user_data, Pinned::Path(c_path));
        Ok(Submission { user_data, op: Op::OpenAt { dir_fd, flags, mode } })
    }

    /// A close of `fd`.
    pub fn prep_close(&mut self, user_data: u64, fd: i32) -> (r: Result<Submission, RingError>)
        ensures
            prepared_plain(*old(self), *final(self), r, Submission { user_data, op: Op::Close { fd } }),
    {
        self.require_active()?;
        Ok(Submission { user_data, op: Op::Close { fd } })
    }

    /// A cancellation of the in-flight operation `target_user_data`. `flags`
    /// is accepted and not passed on.
    pub fn prep_cancel(&mut self, user_data: u64, target_user_data: u64, flags: i32) -> (r: Result<
        Submission,
        RingError,
    >)
        ensures
            prepared_plain(
                *old(self),
                *final(self),
                r,
                Submission { user_data, op: Op::Cancel { target: target_user_data } },
            ),
    {
        self.require_active()?;
        Ok(Submission { user_data, op: Op::Cancel { target: target_user_data } })
    }

    /// A socket creation. `flags` is accepted and not passed on.
    pub fn prep_socket(
        &mut self,
        user_data: u64,
        domain: i32,
        sock_type: i32,
        protocol: i32,
        flags: u32,
    ) -> (r: Result<Submission, RingError>)
        ensures
            prepared_plain(
                *old(self),
                *final(self),
                r,
                Submission { user_data, op: Op::Socket { domain, sock_type, protocol } },
            ),
    {
        self.require_active()?;
        Ok(Submission { user_data, op: Op::Socket { domain, sock_type, protocol } })
    }

    /// A receive from a connected socket into all of `buf`, whose length is
    /// `buf_len`.
    pub fn prep_socket_recv(&mut self, user_data: u64, fd: i32, buf: B, buf_len: usize, flags: u32) -> (r:
        Result<Submission, RingError>)
        requires
            buf_len <= u32::MAX,
        ensures
            prepared_pinning(
                *old(self),
                *final(self),
                r,
                Submission { user_data, op: Op::Recv { fd, len: buf_len as u32, msg_flags: flags } },
                Pinned::MutableBuffer(buf),
            ),
    {
        self.require_active()?;
        self.registry.pin(user_data, Pinned::MutableBuffer(buf));
        Ok(Submission { user_data, op: Op::Recv { fd, len: buf_len as u32, msg_flags: flags } })
    }

    /// A send of all of `buf`, whose length is `buf_len`, on a connected socket.
    pub fn prep_socket_send(&mut self, user_data: u64, fd: i32, buf: B, buf_len: usize, flags: u32) -> (r:
        Result<Submission, RingError>)
        requires
            buf_len <= u32::MAX,
        ensures
            prepared_pinning(
                *old(self),
                *final(self),
                r,
                Submission { user_data, op: Op::Send { fd, len: buf_len as u32, msg_flags: flags } },
                Pinned::ImmutableBuffer(buf),
            ),
    {
        self.require_active()?;
        self.registry.pin(user_data, Pinned::ImmutableBuffer(buf));
        Ok(Submission { user_data, op: Op::Send { fd, len: buf_len as u32, msg_flags: flags } })
    }

    /// A bind of `fd` to `sock_addr`, whose layout is pinned.
    pub fn prep_socket_bind(&mut self, user_data: u64, fd: i32, sock_addr: SockAddr) -> (r: Result<
        Submission,
        RingError,
    >)
        ensures
            prepared_pinning_built(*old(self), *final(self), r, Submission { user_data, op: Op::Bind { fd } }),
            r is Ok ==> (final(self).pinned()[user_data] matches Pinned::Address(v) && v@
                == sock_addr.layout()),
    {
        self.require_active()?;
        self.registry.pin(user_data, Pinned::Address(sock_addr.into_layout()));
        Ok(Submission { user_data, op: Op::Bind { fd } })
    }

    /// Marks `fd` as a passive socket with the given backlog.
    pub fn prep_socket_listen(&mut self, user_data: u64, fd: i32, backlog: i32) -> (r: Result<
        Submission,
        RingError,
    >)
        ensures
            prepared_plain(
                *old(self),
                *final(self),
                r,
                Submission { user_data, op: Op::Listen { fd, backlog } },
            ),
    {
        self.require_active()?;
        Ok(Submission { user_data, op: Op::Listen { fd, backlog } })
    }

    /// An accept of one connection on `fd`; the peer's address is not captured.
    pub fn prep_socket_accept(&mut self, user_data: u64, fd: i32) -> (r: Result<Submission, RingError>)
        ensures
            prepared_plain(*old(self), *final(self), r, Submission { user_data, op: Op::Accept { fd } }),
    {
        self.require_active()?;
        Ok(Submission { user_data, op: Op::Accept { fd } })
    }

    /// A connect of `fd` to `sock_addr`, whose layout is pinned.
    pub fn prep_socket_connect(&mut self, user_data: u64, fd: i32, sock_addr: SockAddr) -> (r: Result<
        Submission,
        RingError,
    >)
        ensures
            prepared_pinning_built(
                *old(self),
                *final(self),
                r,
                Submission { user_data, op: Op::Connect { fd } },
            ),
            r is Ok ==> (final(self).pinned()[user_data] matches Pinned::Address(v) && v@
                == sock_addr.layout()),
    {
        self.require_active()?;
        self.registry.pin(user_data, Pinned::Address(sock_addr.into_layout()));
        Ok(Submission { user_data, op: Op::Connect { fd } })
    }

    /// Sets the option that allows address reuse on `fd`; no other option
    /// can be set.
    pub fn prep_socket_setopt(&mut self, user_data: u64, fd: i32) -> (r: Result<Submission, RingError>)
        ensures
            prepared_plain(
                *old(self),
                *final(self),
                r,
                Submission { user_data, op: Op::SetReuseAddr { fd } },
            ),
    {
        self.require_active()?;
        Ok(Submission { user_data, op: Op::SetReuseAddr { fd } })
    }
}

} // verus!
