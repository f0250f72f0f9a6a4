use vstd::prelude::*;

verus! {

/// A defect of the rope found on the columns `start..end` of a frame.
#[derive(Debug, Clone, Copy, PartialEq, Eq, Structural)]
pub enum RopeDefectKind {
    Expansion(usize, usize),
    Compressing(usize, usize),
    Hill(usize, usize),
    Pit(usize, usize),
}

impl RopeDefectKind {
    /// Which of the four kinds: 0 expansion, 1 compressing, 2 hill, 3 pit.
    pub open spec fn tag(self) -> nat {
        match self {
            RopeDefectKind::Expansion(_, _) => 0,
            RopeDefectKind::Compressing(_, _) => 1,
            RopeDefectKind::Hill(_, _) => 2,
            RopeDefectKind::Pit(_, _) => 3,
        }
    }

    /// The first column of the defect.
    pub open spec fn first(self) -> usize {
        match self {
            RopeDefectKind::Expansion(s, _) => s,
            RopeDefectKind::Compressing(s, _) => s,
            RopeDefectKind::Hill(s, _) => s,
            RopeDefectKind::Pit(s, _) => s,
        }
    }

    /// The last column of the defect.
    pub open spec fn last(self) -> usize {
        match self {
            RopeDefectKind::Expansion(_, e) => e,
            RopeDefectKind::Compressing(_, e) => e,
            RopeDefectKind::Hill(_, e) => e,
            RopeDefectKind::Pit(_, e) => e,
        }
    }

    /// The defect of kind `tag` on the columns `start..end`.
    pub open spec fn make(tag: nat, start: usize, end: usize) -> RopeDefectKind {
        if tag == 0 {
            RopeDefectKind::Expansion(start, end)
        } else if tag == 1 {
            RopeDefectKind::Compressing(start, end)
        } else if tag == 2 {
            RopeDefectKind::Hill(start, end)
        } else {
            RopeDefectKind::Pit(start, end)
        }
    }

    /// True when both defects are of the same kind, whatever their columns.
    pub fn is_same(&self, other: &Self) -> (res: bool)
        ensures
            res == (self.tag() == other.tag()),
    {
        match (self, other) {
            (RopeDefectKind::Expansion(_, _), RopeDefectKind::Expansion(_, _)) => true,
            (RopeDefectKind::Compressing(_, _), RopeDefectKind::Compressing(_, _)) => true,
            (RopeDefectKind::Hill(_, _), RopeDefectKind::Hill(_, _)) => true,
            (RopeDefectKind::Pit(_, _), RopeDefectKind::Pit(_, _)) => true,
            _ => false,
        }
    }

    /// The first column of the defect.
    pub fn start(&self) -> (res: usize)
        ensures
            res == self.first(),
    {
        match self {
            RopeDefectKind::Expansion(start, _) => *start,
            RopeDefectKind::Compressing(start, _) => *start,
            RopeDefectKind::Hill(start, _) => *start,
            RopeDefectKind::Pit(start, _) => *start,
        }
    }

    /// The last column of the defect.
    pub fn end(&self) -> (res: usize)
        ensures
            res == self.last(),
    {
        match self {
            RopeDefectKind::Expansion(_, end) => *end,
            RopeDefectKind::Compressing(_, end) => *end,
            RopeDefectKind::Hill(_, end) => *end,
            RopeDefectKind::Pit(_, end) => *end,
        }
    }

    /// The same kind of defect, starting at `start`.
    pub fn start_with(&self, start: usize) -> (res: RopeDefectKind)
        ensures
            res == RopeDefectKind::make(self.tag(), start, self.last()),
    {
        match self {
            RopeDefectKind::Expansion(_, end) => RopeDefectKind::Expansion(start, *end),
            RopeDefectKind::Compressing(_, end) => RopeDefectKind::Compressing(start, *end),
            RopeDefectKind::Hill(_, end) => RopeDefectKind::Hill(start, *end),
            RopeDefectKind::Pit(_, end) => RopeDefectKind::Pit(start, *end),
        }
    }

    /// The same kind of defect, ending at `end`.
    pub fn end_with(&self, end: usize) -> (res: RopeDefectKind)
        ensures
            res == RopeDefectKind::make(self.tag(), self.first(), end),
    {
        match self {
            RopeDefectKind::Expansion(start, _) => RopeDefectKind::Expansion(*start, end),
            RopeDefectKind::Compressing(start, _) => RopeDefectKind::Compressing(*start, end),
            RopeDefectKind::Hill(start, _) => RopeDefectKind::Hill(*start, end),
            RopeDefectKind::Pit(start, _) => RopeDefectKind::Pit(*start, end),
        }
    }
}

/// A defect built by `make` has the kind and the columns it was built with.
pub proof fn lemma_make(tag: nat, start: usize, end: usize)
    requires
        tag < 4,
    ensures
        RopeDefectKind::make(tag, start, end).tag() == tag,
        RopeDefectKind::make(tag, start, end).first() == start,
        RopeDefectKind::make(tag, start, end).last() == end,
{
}

/// Moving the start, then the end, of a defect keeps its kind and gives exactly the new columns.
pub proof fn lemma_start_end_with(kind: RopeDefectKind, start: usize, end: usize)
    ensures
        RopeDefectKind::make(kind.tag(), start, kind.last()).tag() == kind.tag(),
        RopeDefectKind::make(kind.tag(), kind.first(), end).tag() == kind.tag(),
        RopeDefectKind::make(kind.tag(), start, kind.last()).last() == kind.last(),
        RopeDefectKind::make(kind.tag(), kind.first(), end).first() == kind.first(),
        RopeDefectKind::make(kind.tag(), kind.first(), kind.last()) == kind,
{
}

} // verus!
