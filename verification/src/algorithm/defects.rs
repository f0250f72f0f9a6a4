use vstd::prelude::*;
use crate::algorithm::rope_defect_kind::RopeDefectKind;

verus! {

/// The least length (end column minus start column) above which a run of defective
/// columns is reported.
pub const MIN_DEFECT_LEN: usize = 16;

/// What closing the open defect `prev` at column `end` reports: the defect with its end
/// moved to `end`, when it is longer than `MIN_DEFECT_LEN`, else nothing.
pub open spec fn closed_at(prev: RopeDefectKind, end: usize) -> Seq<RopeDefectKind> {
    if end - prev.first() > MIN_DEFECT_LEN {
        seq![RopeDefectKind::make(prev.tag(), prev.first(), end)]
    } else {
        seq![]
    }
}

/// The state of the run after a column without defect at `x`.
pub open spec fn after_no_defect(
    state: (Seq<RopeDefectKind>, Option<RopeDefectKind>),
    x: usize,
) -> (Seq<RopeDefectKind>, Option<RopeDefectKind>) {
    match state.1 {
        Some(prev) => (state.0 + closed_at(prev, x), None),
        None => state,
    }
}

/// True when a defect of kind `next` just after one of kind `prev` is absorbed into it:
/// a pit or a hill inside an expansion or a compressing, a hill that grows into an
/// expansion, a pit that shrinks into a compressing.
pub open spec fn absorbed(prev: RopeDefectKind, next: RopeDefectKind) -> bool {
    ||| (prev.tag() == 2 && next.tag() == 0)
    ||| (prev.tag() == 0 && (next.tag() == 3 || next.tag() == 2))
    ||| (prev.tag() == 3 && next.tag() == 1)
    ||| (prev.tag() == 1 && (next.tag() == 3 || next.tag() == 2))
}

/// True when pushing `defect` closes the open defect: there is one, of another kind,
/// and `defect` is not absorbed into it.
pub open spec fn push_closes(prev: Option<RopeDefectKind>, defect: RopeDefectKind) -> bool {
    match prev {
        Some(p) => p.tag() != defect.tag() && !absorbed(p, defect),
        None => false,
    }
}

/// The state of the run after a column with the defect `defect`.
pub open spec fn after_push(
    state: (Seq<RopeDefectKind>, Option<RopeDefectKind>),
    defect: RopeDefectKind,
) -> (Seq<RopeDefectKind>, Option<RopeDefectKind>) {
    match state.1 {
        None => (state.0, Some(defect)),
        Some(prev) => {
            if prev.tag() == defect.tag() {
                state
            } else if prev.tag() == 2 && defect.tag() == 0 {
                (state.0, Some(RopeDefectKind::Expansion(prev.first(), defect.last())))
            } else if prev.tag() == 3 && defect.tag() == 1 {
                (state.0, Some(RopeDefectKind::Compressing(prev.first(), defect.last())))
            } else if absorbed(prev, defect) {
                state
            } else {
                (state.0 + closed_at(prev, defect.first()), Some(defect))
            }
        }
    }
}

/// Joins the defects found column by column into runs, and keeps the long runs.
pub struct Defects {
    items: Vec<RopeDefectKind>,
    prev: Option<RopeDefectKind>,
}

impl View for Defects {
    /// The reported defects and the open one.
    type V = (Seq<RopeDefectKind>, Option<RopeDefectKind>);

    closed spec fn view(&self) -> (Seq<RopeDefectKind>, Option<RopeDefectKind>) {
        (self.items@, self.prev)
    }
}

impl Defects {
    /// A run with nothing reported and nothing open.
    pub fn new() -> (res: Self)
        ensures
            res@ == (Seq::<RopeDefectKind>::empty(), None::<RopeDefectKind>),
    {
        Defects { items: Vec::new(), prev: None }
    }

    /// Notes a column `x` without defect: the open defect, if any, ends at `x`.
    pub fn no_defect(&mut self, x: usize)
        requires
            old(self)@.1 matches Some(prev) ==> prev.first() <= x,
        ensures
            final(self)@ == after_no_defect(old(self)@, x),
            old(self)@.1 is None ==> final(self)@ == old(self)@,
            old(self)@.1 matches Some(prev) ==> final(self)@.1 is None && final(self)@.0 == old(self)@.0 + (
                if x - prev.first() > 16 { seq![RopeDefectKind::make(prev.tag(), prev.first(), x)] } else { seq![] }),
    {
        if let Some(prev) = &self.prev {
            let detected = prev.end_with(x);
            if detected.end() - detected.start() > MIN_DEFECT_LEN {
                self.items.push(detected);
            }
            self.prev = None;
        }
    }

    /// Notes a column with the defect `defect`.
    pub fn push(&mut self, defect: RopeDefectKind)
        requires
            push_closes(old(self)@.1, defect) ==> old(self)@.1.unwrap().first() <= defect.first(),
        ensures
            final(self)@ == after_push(old(self)@, defect),
            // nothing open: the defect opens
            old(self)@.1 is None ==> final(self)@ == (old(self)@.0, Some(defect)),
            // the same kind again: the open defect goes on
            old(self)@.1 matches Some(prev) && prev.tag() == defect.tag() ==> final(self)@ == old(self)@,
            // a pit or a hill inside an expansion or a compressing is absorbed
            (old(self)@.1 matches Some(RopeDefectKind::Expansion(_, _)) || old(self)@.1 matches Some(RopeDefectKind::Compressing(_, _)))
                && (defect is Pit || defect is Hill) ==> final(self)@ == old(self)@,
            // a hill that grows into an expansion, a pit that shrinks into a compressing
            (old(self)@.1 matches Some(RopeDefectKind::Hill(_, _))) && defect is Expansion
                ==> final(self)@ == (old(self)@.0, Some(RopeDefectKind::Expansion(old(self)@.1.unwrap().first(), defect.last()))),
            (old(self)@.1 matches Some(RopeDefectKind::Pit(_, _))) && defect is Compressing
                ==> final(self)@ == (old(self)@.0, Some(RopeDefectKind::Compressing(old(self)@.1.unwrap().first(), defect.last()))),
            // any other kind ends the open defect where the new one starts
            old(self)@.1 matches Some(prev) && (
                (prev is Expansion && defect is Compressing) || (prev is Compressing && defect is Expansion)
                || (prev is Hill && (defect is Compressing || defect is Pit))
                || (prev is Pit && (defect is Expansion || defect is Hill)))
                ==> final(self)@ == (old(self)@.0 + (
                    if defect.first() - old(self)@.1.unwrap().first() > 16 {
                        seq![RopeDefectKind::make(old(self)@.1.unwrap().tag(), old(self)@.1.unwrap().first(), defect.first())]
                    } else {
                        seq![]
                    }), Some(defect)),
    {
        match &self.prev {
            Some(prev) => {
                if !defect.is_same(prev) {
                    if prev.is_same(&RopeDefectKind::Hill(0, 0)) && defect.is_same(
                        &RopeDefectKind::Expansion(0, 0),
                    ) {
                        self.prev = Some(RopeDefectKind::Expansion(prev.start(), defect.end()));
                        return ;
                    }
                    if prev.is_same(&RopeDefectKind::Expansion(0, 0)) && (defect.is_same(
                        &RopeDefectKind::Pit(0, 0),
                    ) || defect.is_same(&RopeDefectKind::Hill(0, 0))) {
                        return ;
                    }
                    if prev.is_same(&RopeDefectKind::Pit(0, 0)) && defect.is_same(
                        &RopeDefectKind::Compressing(0, 0),
                    ) {
                        self.prev = Some(RopeDefectKind::Compressing(prev.start(), defect.end()));
                        return ;
                    }
                    if prev.is_same(&RopeDefectKind::Compressing(0, 0)) && (defect.is_same(
                        &RopeDefectKind::Pit(0, 0),
                    ) || defect.is_same(&RopeDefectKind::Hill(0, 0))) {
                        return ;
                    }
                    let detected = prev.end_with(defect.start());
                    if detected.end() - detected.start() > MIN_DEFECT_LEN {
                        self.items.push(detected);
                    }
                    self.prev = Some(defect);
                }
            },
            None => {
                self.prev = Some(defect);
            },
        }
    }

    /// Whether `push(defect)` may be called: it would not close the open defect at a
    /// column before that defect's start.
    pub(crate) fn push_fits(&self, defect: &RopeDefectKind) -> (res: bool)
        ensures
            res == !(push_closes(self@.1, *defect) && self@.1.unwrap().first() > defect.first()),
    {
        match &self.prev {
            None => true,
            Some(prev) => {
                if prev.start() <= defect.start() || prev.is_same(defect) {
                    true
                } else {
                    let expansion = RopeDefectKind::Expansion(0, 0);
                    let compressing = RopeDefectKind::Compressing(0, 0);
                    let hill = RopeDefectKind::Hill(0, 0);
                    let pit = RopeDefectKind::Pit(0, 0);
                    (prev.is_same(&hill) && defect.is_same(&expansion))
                        || (prev.is_same(&expansion) && (defect.is_same(&pit) || defect.is_same(&hill)))
                        || (prev.is_same(&pit) && defect.is_same(&compressing))
                        || (prev.is_same(&compressing) && (defect.is_same(&pit) || defect.is_same(&hill)))
                }
            },
        }
    }

    /// Whether `no_defect(x)` may be called: the open defect, if any, starts no later
    /// than `x`.
    pub(crate) fn clear_fits(&self, x: usize) -> (res: bool)
        ensures
            res == !(self@.1 is Some && self@.1.unwrap().first() > x),
    {
        match &self.prev {
            None => true,
            Some(prev) => prev.start() <= x,
        }
    }

    /// The reported defects.
    pub fn all(self) -> (res: Vec<RopeDefectKind>)
        ensures
            res@ == self@.0,
    {
        self.items
    }
}

} // verus!
