//! Borrow modes, global borrow states and the errors of lock acquisition.

use vstd::prelude::*;
use vstd::string::StringExecFns;

verus! {

/// The mode in which a lock is held: shared (immutable) or exclusive (mutable).
#[derive(Debug, Clone, Copy, PartialEq, Eq, Hash, Structural)]
pub enum BorrowMutability {
    Immutable,
    Mutable,
}

impl BorrowMutability {
    pub open spec fn inverted(self) -> BorrowMutability {
        match self {
            BorrowMutability::Immutable => BorrowMutability::Mutable,
            BorrowMutability::Mutable => BorrowMutability::Immutable,
        }
    }

    /// The other mode.
    pub fn invert(self) -> (r: BorrowMutability)
        ensures
            r == self.inverted(),
    {
        match self {
            BorrowMutability::Immutable => BorrowMutability::Mutable,
            BorrowMutability::Mutable => BorrowMutability::Immutable,
        }
    }

    /// The adjective naming this mode in diagnostics.
    pub fn adjective(self) -> (r: &'static str)
        ensures
            self == BorrowMutability::Immutable ==> r@ == "immutable"@,
            self == BorrowMutability::Mutable ==> r@ == "mutable"@,
    {
        match self {
            BorrowMutability::Immutable => "immutable",
            BorrowMutability::Mutable => "mutable",
        }
    }

    /// The adverb naming this mode in diagnostics.
    pub fn adverb(self) -> (r: &'static str)
        ensures
            self == BorrowMutability::Immutable ==> r@ == "immutably"@,
            self == BorrowMutability::Mutable ==> r@ == "mutably"@,
    {
        match self {
            BorrowMutability::Immutable => "immutably",
            BorrowMutability::Mutable => "mutably",
        }
    }
}

/// How a lock is currently borrowed: shared by a known or unknown number of
/// holders, or held exclusively.
#[derive(Debug, Clone, Copy, PartialEq, Eq, Structural)]
pub enum BorrowState {
    Immutable(Option<usize>),
    Mutable,
}

impl BorrowState {
    /// The well-formed states: a known shared count is never zero.
    pub open spec fn wf(self) -> bool {
        match self {
            BorrowState::Immutable(Some(n)) => n > 0,
            _ => true,
        }
    }

    pub open spec fn mode(self) -> BorrowMutability {
        match self {
            BorrowState::Immutable(_) => BorrowMutability::Immutable,
            BorrowState::Mutable => BorrowMutability::Mutable,
        }
    }

    /// The state that a borrow of the given mode leaves, count unknown.
    pub fn from_mutability(mode: BorrowMutability) -> (r: BorrowState)
        ensures
            r.wf(),
            r.mode() == mode,
            mode == BorrowMutability::Immutable ==> r == BorrowState::Immutable(None),
    {
        match mode {
            BorrowMutability::Immutable => BorrowState::Immutable(None),
            BorrowMutability::Mutable => BorrowState::Mutable,
        }
    }

    /// A shared state with `count` holders.
    pub fn new_immutable_known(count: usize) -> (r: BorrowState)
        requires
            count > 0,
        ensures
            r == BorrowState::Immutable(Some(count)),
            r.wf(),
    {
        BorrowState::Immutable(Some(count))
    }

    pub fn mutability(&self) -> (r: BorrowMutability)
        ensures
            r == self.mode(),
    {
        match self {
            BorrowState::Immutable(_) => BorrowMutability::Immutable,
            BorrowState::Mutable => BorrowMutability::Mutable,
        }
    }

    /// How many holders block a conflicting borrow, where known.
    pub fn block_count(&self) -> (r: Option<usize>)
        ensures
            r == match *self {
                BorrowState::Immutable(c) => c,
                BorrowState::Mutable => Some(1usize),
            },
    {
        match self {
            BorrowState::Immutable(count) => *count,
            BorrowState::Mutable => Some(1),
        }
    }
}

/// A borrow was refused: `offending` is the state that blocks it.
#[derive(Debug, Clone, Copy, PartialEq, Eq, Structural)]
pub struct BorrowError {
    pub offending: BorrowState,
}

impl BorrowError {
    /// The text of [`BorrowError::message`].
    pub open spec fn text(self) -> Seq<char> {
        let mode = self.offending.mode();
        let count: Seq<char> = match self.offending {
            BorrowState::Immutable(Some(c)) => decimal(c as nat),
            BorrowState::Immutable(None) => "an indeterminate number of"@,
            BorrowState::Mutable => "1"@,
        };
        let plural: Seq<char> = if self.offending == BorrowState::Mutable
            || self.offending == BorrowState::Immutable(Some(1usize)) {
            ""@
        } else {
            "s"@
        };
        "failed to borrow "@ + adverb_text(mode.inverted()) + ", blocked by "@ + count + " "@
            + adjective_text(mode) + " acquisition"@ + plural
    }

    /// Describes the refused borrow and what blocks it, as in
    /// "failed to borrow mutably, blocked by 2 immutable acquisitions".
    pub fn message(&self) -> (r: String)
        ensures
            r@ == self.text(),
    {
        let mode = self.offending.mutability();
        let count = match self.offending.block_count() {
            Some(c) => decimal_string(c),
            None => String::from_str("an indeterminate number of"),
        };
        let plural = match self.offending.block_count() {
            Some(c) => if c == 1 {
                ""
            } else {
                "s"
            },
            None => "s",
        };
        proof {
            reveal_strlit("an indeterminate number of");
            reveal_strlit("");
            reveal_strlit("s");
            reveal_strlit("1");
            if self.offending == BorrowState::Mutable {
                assert(decimal(1) == "1"@);
            }
        }
        String::from_str("failed to borrow ").concat(mode.invert().adverb()).concat(
            ", blocked by ",
        ).concat(count.as_str()).concat(" ").concat(mode.adjective()).concat(" acquisition").concat(
            plural,
        )
    }
}

/// The text of a mode's adjective.
pub open spec fn adjective_text(m: BorrowMutability) -> Seq<char> {
    match m {
        BorrowMutability::Immutable => "immutable"@,
        BorrowMutability::Mutable => "mutable"@,
    }
}

/// The text of a mode's adverb.
pub open spec fn adverb_text(m: BorrowMutability) -> Seq<char> {
    match m {
        BorrowMutability::Immutable => "immutably"@,
        BorrowMutability::Mutable => "mutably"@,
    }
}

/// The decimal digit `d`.
pub open spec fn digit(d: nat) -> char {
    if d == 0 { '0' } else if d == 1 { '1' } else if d == 2 { '2' } else if d == 3 { '3' }
    else if d == 4 { '4' } else if d == 5 { '5' } else if d == 6 { '6' } else if d == 7 { '7' }
    else if d == 8 { '8' } else { '9' }
}

/// The decimal notation of `n`, without leading zeros.
pub open spec fn decimal(n: nat) -> Seq<char>
    decreases n,
{
    if n < 10 {
        seq![digit(n)]
    } else {
        decimal(n / 10).push(digit(n % 10))
    }
}

fn digit_str(d: usize) -> (r: &'static str)
    requires
        d < 10,
    ensures
        r@ == seq![digit(d as nat)],
{
    proof {
        reveal_strlit("0");
        reveal_strlit("1");
        reveal_strlit("2");
        reveal_strlit("3");
        reveal_strlit("4");
        reveal_strlit("5");
        reveal_strlit("6");
        reveal_strlit("7");
        reveal_strlit("8");
        reveal_strlit("9");
    }
    if d == 0 { "0" } else if d == 1 { "1" } else if d == 2 { "2" } else if d == 3 { "3" }
    else if d == 4 { "4" } else if d == 5 { "5" } else if d == 6 { "6" } else if d == 7 { "7" }
    else if d == 8 { "8" } else { "9" }
}

/// The decimal notation of `n`.
pub fn decimal_string(n: usize) -> (r: String)
    ensures
        r@ == decimal(n as nat),
    decreases n,
{
    if n < 10 {
        String::from_str(digit_str(n))
    } else {
        let head = decimal_string(n / 10);
        head.concat(digit_str(n % 10))
    }
}

/// No lock identity is free: every one of the usable identities is reserved.
#[derive(Debug, Clone, Copy, PartialEq, Eq, Structural)]
pub struct LockCreationError;

/// The global borrow state of one lock: `-1` while held exclusively, otherwise
/// the number of shared holders.
#[derive(Debug, Clone, Copy, PartialEq, Eq, Structural)]
pub(crate) struct BorrowStateCell(pub(crate) isize);

impl BorrowStateCell {
    pub(crate) open spec fn wf(self) -> bool {
        self.0 >= -1
    }

    /// The state this counter encodes, `None` when unborrowed.
    pub(crate) open spec fn view_state(self) -> Option<BorrowState> {
        if self.0 == -1 {
            Some(BorrowState::Mutable)
        } else if self.0 == 0 {
            None
        } else {
            Some(BorrowState::Immutable(Some(self.0 as usize)))
        }
    }

    /// Whether a borrow in `mode` is compatible with this counter.
    pub(crate) open spec fn admits(self, mode: BorrowMutability) -> bool {
        match mode {
            BorrowMutability::Immutable => self.0 != -1,
            BorrowMutability::Mutable => self.0 == 0,
        }
    }

    pub(crate) fn new() -> (r: BorrowStateCell)
        ensures
            r.0 == 0,
    {
        BorrowStateCell(0)
    }

    pub(crate) fn state(&self) -> (r: Option<BorrowState>)
        requires
            self.wf(),
        ensures
            r == self.view_state(),
            r matches Some(s) ==> s.wf(),
    {
        if self.0 == -1 {
            Some(BorrowState::Mutable)
        } else if self.0 == 0 {
            None
        } else {
            Some(BorrowState::new_immutable_known(self.0 as usize))
        }
    }

    pub(crate) fn can_borrow_ref(&self) -> (r: Result<(), BorrowError>)
        requires
            self.wf(),
        ensures
            r is Ok <==> self.admits(BorrowMutability::Immutable),
            r matches Err(e) ==> e.offending == BorrowState::Mutable,
    {
        if self.0 != -1 {
            Ok(())
        } else {
            Err(BorrowError { offending: BorrowState::Mutable })
        }
    }

    pub(crate) fn can_borrow_mut(&self) -> (r: Result<(), BorrowError>)
        requires
            self.wf(),
        ensures
            r is Ok <==> self.admits(BorrowMutability::Mutable),
            r matches Err(e) ==> self.view_state() == Some(e.offending),
    {
        match self.state() {
            Some(blocking) => Err(BorrowError { offending: blocking }),
            None => Ok(()),
        }
    }

    pub(crate) fn can_borrow_as(&self, mode: BorrowMutability) -> (r: Result<(), BorrowError>)
        requires
            self.wf(),
        ensures
            r is Ok <==> self.admits(mode),
            r matches Err(e) ==> self.view_state() == Some(e.offending),
    {
        match mode {
            BorrowMutability::Immutable => self.can_borrow_ref(),
            BorrowMutability::Mutable => self.can_borrow_mut(),
        }
    }

    pub(crate) fn borrow_ref(&mut self)
        requires
            old(self).0 >= 0,
            old(self).0 < isize::MAX,
        ensures
            final(self).0 == old(self).0 + 1,
    {
        self.0 = self.0 + 1;
    }

    pub(crate) fn borrow_mut(&mut self)
        requires
            old(self).0 == 0,
        ensures
            final(self).0 == -1,
    {
        self.0 = -1;
    }

    pub(crate) fn borrow_as(&mut self, mode: BorrowMutability)
        requires
            old(self).admits(mode),
            old(self).0 >= 0,
            old(self).0 < isize::MAX,
        ensures
            mode == BorrowMutability::Immutable ==> final(self).0 == old(self).0 + 1,
            mode == BorrowMutability::Mutable ==> final(self).0 == -1,
    {
        match mode {
            BorrowMutability::Immutable => self.borrow_ref(),
            BorrowMutability::Mutable => self.borrow_mut(),
        }
    }

    pub(crate) fn release_as(&mut self, mode: BorrowMutability)
        requires
            mode == BorrowMutability::Immutable ==> old(self).0 > 0,
            mode == BorrowMutability::Mutable ==> old(self).0 == -1,
        ensures
            mode == BorrowMutability::Immutable ==> final(self).0 == old(self).0 - 1,
            mode == BorrowMutability::Mutable ==> final(self).0 == 0,
    {
        match mode {
            BorrowMutability::Immutable => self.release_ref(),
            BorrowMutability::Mutable => self.release_mut(),
        }
    }

    pub(crate) fn release_ref(&mut self)
        requires
            old(self).0 > 0,
        ensures
            final(self).0 == old(self).0 - 1,
    {
        self.0 = self.0 - 1;
    }

    pub(crate) fn release_mut(&mut self)
        requires
            old(self).0 == -1,
        ensures
            final(self).0 == 0,
    {
        self.0 = 0;
    }
}

} // verus!
