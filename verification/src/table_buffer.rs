//! Owner-checked double buffer of waveform tables.
//!
//! Two banks hold waveform tables. The staging side writes only the inactive
//! bank and publishes it with a commit; the real-time side reads only the
//! active bank and switches to a committed bank on activation. A commit
//! hands out a token that is consumed by exactly one activation or
//! cancellation; tokens of another buffer are ignored.

use vstd::prelude::*;

use crate::table::WaveTable;

verus! {

/// Marker for "no commit awaiting activation".
pub const NO_PENDING: u8 = 2;

/// A table commit cannot begin while an earlier commit awaits activation.
#[derive(Clone, Copy, Debug, PartialEq, Eq, Structural)]
pub enum BufferError {
    Busy,
}

/// Linear proof that one table-bank activation is outstanding. It is
/// neither `Copy` nor `Clone`: it is consumed by exactly one activation or
/// cancellation.
#[derive(Debug)]
pub struct CommitToken {
    owner: usize,
    bank: u8,
}

impl CommitToken {
    /// Identity of the buffer that issued the token.
    pub closed spec fn spec_owner(&self) -> usize {
        self.owner
    }

    /// Bank the token activates.
    pub closed spec fn spec_bank(&self) -> u8 {
        self.bank
    }
}

/// Abstract state of a double buffer.
pub struct BufferView {
    pub owner: usize,
    /// Bank read by the real-time side.
    pub active: u8,
    /// Committed bank awaiting activation, or `NO_PENDING`.
    pub pending: u8,
    pub bank0: WaveTable,
    pub bank1: WaveTable,
}

/// Banks are 0 and 1, and only the inactive bank can be pending.
pub open spec fn buffer_wf(v: BufferView) -> bool {
    &&& v.active <= 1
    &&& v.pending == NO_PENDING || v.pending == 1 - v.active
}

/// The table in bank `i`.
pub open spec fn bank_table(v: BufferView, i: int) -> WaveTable {
    if i == 0 {
        v.bank0
    } else {
        v.bank1
    }
}

/// The table the real-time side plays.
pub open spec fn active_table(v: BufferView) -> WaveTable {
    bank_table(v, v.active as int)
}

/// The state with the staging (inactive) bank replaced by `t`.
pub open spec fn with_staging(v: BufferView, t: WaveTable) -> BufferView {
    if v.active == 0 {
        BufferView { bank1: t, ..v }
    } else {
        BufferView { bank0: t, ..v }
    }
}

/// State after a commit: the staging bank becomes pending, unless a commit
/// is already pending.
pub open spec fn after_commit(v: BufferView) -> BufferView {
    if v.pending != NO_PENDING {
        v
    } else {
        BufferView { pending: (1 - v.active) as u8, ..v }
    }
}

/// State after cancelling a token issued by `token_owner`.
pub open spec fn after_cancel(v: BufferView, token_owner: usize) -> BufferView {
    if token_owner == v.owner {
        BufferView { pending: NO_PENDING, ..v }
    } else {
        v
    }
}

/// State after activating a token of `token_owner` for `token_bank`: only
/// this buffer's token for the pending bank switches the active bank.
pub open spec fn after_activate(v: BufferView, token_owner: usize, token_bank: u8) -> BufferView {
    if token_owner == v.owner && v.pending != NO_PENDING && v.pending == token_bank {
        BufferView { active: token_bank, pending: NO_PENDING, ..v }
    } else {
        v
    }
}

/// Owner and bank indices of a double buffer.
#[derive(Debug)]
struct BankState {
    owner: usize,
    active: u8,
    pending: u8,
}

impl BankState {
    /// Banks are 0 and 1, and only the inactive bank can be pending.
    #[verifier::type_invariant]
    closed spec fn wf(&self) -> bool {
        &&& self.active <= 1
        &&& self.pending == NO_PENDING || self.pending == 1 - self.active
    }
}

/// Two waveform banks shared by a staging side and a real-time side,
/// identified by `owner`.
#[derive(Debug)]
pub struct TableBuffer {
    state: BankState,
    bank0: WaveTable,
    bank1: WaveTable,
}

impl View for TableBuffer {
    type V = BufferView;

    closed spec fn view(&self) -> BufferView {
        BufferView {
            owner: self.state.owner,
            active: self.state.active,
            pending: self.state.pending,
            bank0: self.bank0,
            bank1: self.bank1,
        }
    }
}

impl TableBuffer {
    /// Bank 0 active, nothing pending, both banks empty.
    pub fn new(owner: usize) -> (b: Self)
        ensures
            buffer_wf(b@),
            b@.owner == owner,
            b@.active == 0,
            b@.pending == NO_PENDING,
            b@.bank0.spec_len() == 0,
            b@.bank1.spec_len() == 0,
    {
        TableBuffer {
            state: BankState { owner, active: 0, pending: NO_PENDING },
            bank0: WaveTable::empty(),
            bank1: WaveTable::empty(),
        }
    }

    /// The inactive bank, for the staging side to write, while no commit is
    /// pending. Writes through it change that bank and nothing else.
    pub fn buffer(&mut self) -> (r: Result<&mut WaveTable, BufferError>)
        ensures
            old(self)@.pending != NO_PENDING ==> r is Err && final(self)@ == old(self)@,
            old(self)@.pending == NO_PENDING ==> match r {
                Ok(t) => *t == bank_table(old(self)@, 1 - old(self)@.active)
                    && final(self)@ == with_staging(old(self)@, *final(t)),
                Err(_) => false,
            },
            buffer_wf(final(self)@),
    {
        proof {
            use_type_invariant(&self.state);
        }
        if self.state.pending != NO_PENDING {
            return Err(BufferError::Busy);
        }
        if self.state.active == 0 {
            Ok(&mut self.bank1)
        } else {
            Ok(&mut self.bank0)
        }
    }

    /// Publish the staged bank and return its activation token.
    pub fn commit(&mut self) -> (r: Result<CommitToken, BufferError>)
        ensures
            final(self)@ == after_commit(old(self)@),
            buffer_wf(final(self)@),
            old(self)@.pending != NO_PENDING <==> r is Err,
            r matches Ok(t) ==> t.spec_owner() == old(self)@.owner && t.spec_bank() == 1
                - old(self)@.active,
    {
        proof {
            use_type_invariant(&self.state);
        }
        if self.state.pending != NO_PENDING {
            return Err(BufferError::Busy);
        }
        let owner = self.state.owner;
        let active = self.state.active;
        let bank = 1 - active;
        self.state = BankState { owner, active, pending: bank };
        Ok(CommitToken { owner, bank })
    }

    /// Cancel a commit, ignoring tokens from another buffer.
    pub fn cancel(&mut self, token: CommitToken)
        ensures
            final(self)@ == after_cancel(old(self)@, token.spec_owner()),
            buffer_wf(final(self)@),
    {
        proof {
            use_type_invariant(&self.state);
        }
        if token.owner == self.state.owner {
            let owner = self.state.owner;
            let active = self.state.active;
            self.state = BankState { owner, active, pending: NO_PENDING };
        }
    }

    /// Bank read by the real-time side.
    pub fn active_bank(&self) -> (bank: u8)
        ensures
            bank == self@.active,
            bank <= 1,
    {
        proof {
            use_type_invariant(&self.state);
        }
        self.state.active
    }

    /// The table the real-time side plays.
    pub fn get(&self) -> (t: &WaveTable)
        ensures
            *t == active_table(self@),
    {
        if self.state.active == 0 {
            &self.bank0
        } else {
            &self.bank1
        }
    }

    /// Activate a committed bank, ignoring invalid or foreign tokens.
    pub fn activate(&mut self, token: CommitToken)
        ensures
            final(self)@ == after_activate(old(self)@, token.spec_owner(), token.spec_bank()),
            buffer_wf(final(self)@),
    {
        proof {
            use_type_invariant(&self.state);
        }
        if token.owner != self.state.owner {
            return;
        }
        let pending = self.state.pending;
        if pending == NO_PENDING || pending != token.bank {
            return;
        }
        let owner = self.state.owner;
        self.state = BankState { owner, active: pending, pending: NO_PENDING };
    }
}

/// A commit followed by the activation of its token makes the staged table
/// the one played, and leaves the buffer ready for the next commit.
pub proof fn lemma_activation_observes_commit(v: BufferView, staged: WaveTable)
    requires
        buffer_wf(v),
        v.pending == NO_PENDING,
    ensures
        ({
            let committed = after_commit(with_staging(v, staged));
            let activated = after_activate(committed, v.owner, (1 - v.active) as u8);
            &&& active_table(activated) == staged
            &&& activated.pending == NO_PENDING
            &&& buffer_wf(activated)
        }),
{
}

/// A commit that is cancelled leaves the played table as it was and the
/// staging side free to write again.
pub proof fn lemma_cancel_restores_writability(v: BufferView, staged: WaveTable)
    requires
        buffer_wf(v),
        v.pending == NO_PENDING,
    ensures
        ({
            let cancelled = after_cancel(after_commit(with_staging(v, staged)), v.owner);
            &&& active_table(cancelled) == active_table(v)
            &&& cancelled.pending == NO_PENDING
        }),
{
}

/// Tokens of another buffer change nothing.
pub proof fn lemma_foreign_tokens_are_ignored(v: BufferView, token_owner: usize, token_bank: u8)
    requires
        token_owner != v.owner,
    ensures
        after_cancel(v, token_owner) == v,
        after_activate(v, token_owner, token_bank) == v,
{
}

/// While a commit is pending, a second commit is refused and the state is
/// unchanged.
pub proof fn lemma_pending_commit_is_busy(v: BufferView)
    requires
        v.pending != NO_PENDING,
    ensures
        after_commit(v) == v,
{
}

} // verus!
