//! What an action comes to: the sheets it touched, the cells it left stale,
//! and the work it put off.

use vstd::prelude::*;
use crate::calc_vertex::SheetId;
use crate::edit_action::CellId;
use logisheets_base::async_func::Task;

verus! {

/// A sequence with `x` at its end, unless it holds `x` already.
pub open spec fn with<T>(s: Seq<T>, x: T) -> Seq<T> {
    if s.contains(x) {
        s
    } else {
        s.push(x)
    }
}

/// A sequence with the items of `t` added one by one, each unless the
/// sequence holds it by then.
pub open spec fn absorbed<T>(s: Seq<T>, t: Seq<T>) -> Seq<T>
    decreases t.len(),
{
    if t.len() == 0 {
        s
    } else {
        with(absorbed(s, t.drop_last()), t.last())
    }
}

/// An effect as plain sequences.
pub struct EffectView {
    pub sheets: Seq<usize>,
    pub async_tasks: Seq<Task>,
    pub dirtys: Seq<(SheetId, CellId)>,
}

impl EffectView {
    /// No sheet and no stale cell is listed twice.
    pub open spec fn distinct(self) -> bool {
        self.sheets.no_duplicates() && self.dirtys.no_duplicates()
    }

    /// The effect of doing nothing.
    pub open spec fn nothing() -> EffectView {
        EffectView { sheets: Seq::empty(), async_tasks: Seq::empty(), dirtys: Seq::empty() }
    }

    /// This effect followed by another: the other's sheets and stale cells
    /// join those that are new, its tasks follow in their order.
    pub open spec fn followed_by(self, other: EffectView) -> EffectView {
        EffectView {
            sheets: absorbed(self.sheets, other.sheets),
            async_tasks: self.async_tasks + other.async_tasks,
            dirtys: absorbed(self.dirtys, other.dirtys),
        }
    }

    /// The effects of the parts of an action, one after the other.
    pub open spec fn gathered(parts: Seq<EffectView>) -> EffectView
        decreases parts.len(),
    {
        if parts.len() == 0 {
            Self::nothing()
        } else {
            Self::gathered(parts.drop_last()).followed_by(parts.last())
        }
    }
}

/// What one action comes to. It is made for the action and belongs to the
/// caller from then on.
#[derive(Debug)]
pub struct ActionEffect {
    /// The indices of the sheets touched.
    pub sheets: Vec<usize>,
    /// The tasks put off, in the order in which they were enqueued.
    pub async_tasks: Vec<Task>,
    /// The cells whose values are stale.
    pub dirtys: Vec<(SheetId, CellId)>,
}

impl View for ActionEffect {
    type V = EffectView;

    open spec fn view(&self) -> EffectView {
        EffectView {
            sheets: self.sheets@,
            async_tasks: self.async_tasks@,
            dirtys: self.dirtys@,
        }
    }
}

impl Default for ActionEffect {
    fn default() -> (e: ActionEffect)
        ensures
            e@ == EffectView::nothing(),
    {
        ActionEffect::new()
    }
}

impl ActionEffect {
    /// The effect of doing nothing.
    pub fn new() -> (e: ActionEffect)
        ensures
            e@ == EffectView::nothing(),
            e@.distinct(),
    {
        ActionEffect { sheets: Vec::new(), async_tasks: Vec::new(), dirtys: Vec::new() }
    }

    /// Whether the sheet is listed.
    pub fn has_sheet(&self, idx: usize) -> (b: bool)
        ensures
            b == self@.sheets.contains(idx),
    {
        let mut i: usize = 0;
        while i < self.sheets.len()
            invariant
                i <= self.sheets.len(),
                forall|j: int| 0 <= j < i ==> self.sheets@[j] != idx,
            decreases self.sheets.len() - i,
        {
            if self.sheets[i] == idx {
                return true;
            }
            i += 1;
        }
        false
    }

    /// Whether the cell is listed as stale.
    pub fn has_dirty(&self, sheet: SheetId, cell: CellId) -> (b: bool)
        ensures
            b == self@.dirtys.contains((sheet, cell)),
    {
        let mut i: usize = 0;
        while i < self.dirtys.len()
            invariant
                i <= self.dirtys.len(),
                forall|j: int| 0 <= j < i ==> self.dirtys@[j] != (sheet, cell),
            decreases self.dirtys.len() - i,
        {
            if self.dirtys[i].0 == sheet && self.dirtys[i].1 == cell {
                return true;
            }
            i += 1;
        }
        false
    }

    /// Lists a sheet as touched, unless it is listed.
    pub fn add_sheet(&mut self, idx: usize)
        ensures
            final(self)@.sheets == with(old(self)@.sheets, idx),
            final(self)@.async_tasks == old(self)@.async_tasks,
            final(self)@.dirtys == old(self)@.dirtys,
            old(self)@.distinct() ==> final(self)@.distinct(),
    {
        proof {
            lemma_with(self@.sheets, idx);
        }
        if !self.has_sheet(idx) {
            self.sheets.push(idx);
        }
    }

    /// Lists a cell as stale, unless it is listed.
    pub fn add_dirty(&mut self, sheet: SheetId, cell: CellId)
        ensures
            final(self)@.dirtys == with(old(self)@.dirtys, (sheet, cell)),
            final(self)@.sheets == old(self)@.sheets,
            final(self)@.async_tasks == old(self)@.async_tasks,
            old(self)@.distinct() ==> final(self)@.distinct(),
    {
        proof {
            lemma_with(self@.dirtys, (sheet, cell));
        }
        if !self.has_dirty(sheet, cell) {
            self.dirtys.push((sheet, cell));
        }
    }

    /// Enqueues a task behind those enqueued before.
    pub fn add_task(&mut self, task: Task)
        ensures
            final(self)@.async_tasks == old(self)@.async_tasks.push(task),
            final(self)@.sheets == old(self)@.sheets,
            final(self)@.dirtys == old(self)@.dirtys,
    {
        self.async_tasks.push(task);
    }

    /// Takes in the effect of the next part of the action: its sheets and
    /// stale cells join those that are new, its tasks follow in their order.
    pub fn merge(&mut self, other: ActionEffect)
        ensures
            final(self)@ == old(self)@.followed_by(other@),
            old(self)@.distinct() ==> final(self)@.distinct(),
    {
        let mut other = other;
        let ghost given = other@;
        let mut i: usize = 0;
        while i < other.sheets.len()
            invariant
                i <= other.sheets.len(),
                other@ == given,
                self@.sheets == absorbed(old(self)@.sheets, given.sheets.subrange(0, i as int)),
                self@.async_tasks == old(self)@.async_tasks,
                self@.dirtys == old(self)@.dirtys,
            decreases other.sheets.len() - i,
        {
            proof {
                let next = given.sheets.subrange(0, i + 1);
                assert(next.drop_last() =~= given.sheets.subrange(0, i as int));
            }
            self.add_sheet(other.sheets[i]);
            i += 1;
        }
        assert(given.sheets.subrange(0, i as int) =~= given.sheets);
        let mut k: usize = 0;
        while k < other.dirtys.len()
            invariant
                k <= other.dirtys.len(),
                other@ == given,
                self@.sheets == absorbed(old(self)@.sheets, given.sheets),
                self@.async_tasks == old(self)@.async_tasks,
                self@.dirtys == absorbed(old(self)@.dirtys, given.dirtys.subrange(0, k as int)),
            decreases other.dirtys.len() - k,
        {
            proof {
                let next = given.dirtys.subrange(0, k + 1);
                assert(next.drop_last() =~= given.dirtys.subrange(0, k as int));
            }
            let d: (SheetId, CellId) = other.dirtys[k];
            self.add_dirty(d.0, d.1);
            k += 1;
        }
        assert(given.dirtys.subrange(0, k as int) =~= given.dirtys);
        self.async_tasks.append(&mut other.async_tasks);
        proof {
            lemma_absorbed(old(self)@.sheets, given.sheets);
            lemma_absorbed(old(self)@.dirtys, given.dirtys);
        }
    }

    /// The effect of an action from the effects of its parts, taken in
    /// their order. It lists nothing twice.
    pub fn collect(parts: Vec<ActionEffect>) -> (e: ActionEffect)
        ensures
            e@ == EffectView::gathered(parts@.map_values(|p: ActionEffect| p@)),
            e@.distinct(),
    {
        let mut parts = parts;
        let ghost all = parts@.map_values(|p: ActionEffect| p@);
        let ghost mut done: int = 0;
        let mut e = ActionEffect::new();
        while parts.len() > 0
            invariant
                0 <= done <= all.len(),
                parts@.map_values(|p: ActionEffect| p@) == all.subrange(done, all.len() as int),
                e@ == EffectView::gathered(all.subrange(0, done)),
            decreases parts.len(),
        {
            let ghost rest = parts@.map_values(|p: ActionEffect| p@);
            let ghost before = parts@;
            assert(rest.len() == parts.len() && rest.len() == all.len() - done);
            let part = parts.remove(0);
            proof {
                assert(rest[0] == part@);
                let after = parts@.map_values(|p: ActionEffect| p@);
                assert forall|j: int| 0 <= j < after.len() implies after[j] == all[done + 1 + j] by {
                    assert(parts@[j] == before[j + 1]);
                    assert(rest[j + 1] == before[j + 1]@);
                    assert(rest[j + 1] == all[done + (j + 1)]);
                }
                assert(all.subrange(0, done + 1).drop_last() =~= all.subrange(0, done));
                assert(all.subrange(0, done + 1).last() == all[done]);
                assert(rest[0] == all[done]);
                assert(parts@.map_values(|p: ActionEffect| p@) =~= all.subrange(
                    done + 1,
                    all.len() as int,
                ));
                done = done + 1;
            }
            e.merge(part);
        }
        proof {
            assert(all.subrange(0, done) =~= all);
            lemma_gathered_distinct(all);
        }
        e
    }
}

/// Adding an item that may be there already keeps a sequence free of
/// duplicates, keeps what it held in place, and makes it hold the item.
pub proof fn lemma_with<T>(s: Seq<T>, x: T)
    ensures
        s.no_duplicates() ==> with(s, x).no_duplicates(),
        with(s, x).contains(x),
        forall|y: T| with(s, x).contains(y) <==> s.contains(y) || y == x,
        s.len() <= with(s, x).len(),
        with(s, x).subrange(0, s.len() as int) == s,
{
    let w = with(s, x);
    if s.contains(x) {
        assert(w.subrange(0, s.len() as int) =~= s);
    } else {
        assert(w[s.len() as int] == x);
        assert(w.subrange(0, s.len() as int) =~= s);
        assert forall|y: T| w.contains(y) implies s.contains(y) || y == x by {
            let i = choose|i: int| 0 <= i < w.len() && w[i] == y;
            if i < s.len() {
                assert(s[i] == y);
            }
        }
        assert forall|y: T| s.contains(y) || y == x implies w.contains(y) by {
            if s.contains(y) {
                let i = choose|i: int| 0 <= i < s.len() && s[i] == y;
                assert(w[i] == y);
            }
        }
    }
}

/// Adding the items of a sequence one by one keeps a sequence free of
/// duplicates, keeps what it held in place, and makes it hold exactly what
/// either held.
pub proof fn lemma_absorbed<T>(s: Seq<T>, t: Seq<T>)
    ensures
        s.no_duplicates() ==> absorbed(s, t).no_duplicates(),
        forall|y: T| absorbed(s, t).contains(y) <==> s.contains(y) || t.contains(y),
        s.len() <= absorbed(s, t).len(),
        absorbed(s, t).subrange(0, s.len() as int) == s,
    decreases t.len(),
{
    if t.len() == 0 {
        assert(absorbed(s, t).subrange(0, s.len() as int) =~= s);
    } else {
        let before = absorbed(s, t.drop_last());
        lemma_absorbed(s, t.drop_last());
        lemma_with(before, t.last());
        let after = absorbed(s, t);
        assert(after.subrange(0, s.len() as int) =~= before.subrange(0, s.len() as int)) by {
            assert(after.subrange(0, before.len() as int) == before);
            assert forall|i: int| 0 <= i < s.len() implies after[i] == before[i] by {
                assert(after.subrange(0, before.len() as int)[i] == before[i]);
            }
        }
        assert forall|y: T| after.contains(y) <==> s.contains(y) || t.contains(y) by {
            if t.contains(y) {
                let i = choose|i: int| 0 <= i < t.len() && t[i] == y;
                if i < t.len() - 1 {
                    assert(t.drop_last()[i] == y);
                }
            }
            if t.drop_last().contains(y) {
                let i = choose|i: int| 0 <= i < t.drop_last().len() && t.drop_last()[i] == y;
                assert(t[i] == y);
            }
            assert(t[t.len() - 1] == t.last());
        }
    }
}

/// The effect of an action lists no sheet and no stale cell twice, whatever
/// its parts list, and however many of them list the same.
pub proof fn lemma_gathered_distinct(parts: Seq<EffectView>)
    ensures
        EffectView::gathered(parts).distinct(),
    decreases parts.len(),
{
    if parts.len() > 0 {
        lemma_gathered_distinct(parts.drop_last());
        let before = EffectView::gathered(parts.drop_last());
        lemma_absorbed(before.sheets, parts.last().sheets);
        lemma_absorbed(before.dirtys, parts.last().dirtys);
    }
}

/// The effect of an action holds a stale cell exactly if one of its parts
/// does, and a sheet exactly if one of its parts does.
pub proof fn lemma_gathered_holds(parts: Seq<EffectView>)
    ensures
        forall|d: (SheetId, CellId)|
            EffectView::gathered(parts).dirtys.contains(d) <==> exists|i: int|
                0 <= i < parts.len() && #[trigger] parts[i].dirtys.contains(d),
        forall|s: usize|
            EffectView::gathered(parts).sheets.contains(s) <==> exists|i: int|
                0 <= i < parts.len() && #[trigger] parts[i].sheets.contains(s),
    decreases parts.len(),
{
    if parts.len() > 0 {
        let rest = parts.drop_last();
        lemma_gathered_holds(rest);
        let before = EffectView::gathered(rest);
        lemma_absorbed(before.sheets, parts.last().sheets);
        lemma_absorbed(before.dirtys, parts.last().dirtys);
        assert forall|d: (SheetId, CellId)|
            EffectView::gathered(parts).dirtys.contains(d) <==> exists|i: int|
                0 <= i < parts.len() && #[trigger] parts[i].dirtys.contains(d) by {
            if before.dirtys.contains(d) {
                let i = choose|i: int| 0 <= i < rest.len() && #[trigger] rest[i].dirtys.contains(d);
                assert(parts[i].dirtys.contains(d));
            }
            if parts.last().dirtys.contains(d) {
                assert(parts[parts.len() - 1].dirtys.contains(d));
            }
            if exists|i: int| 0 <= i < parts.len() && #[trigger] parts[i].dirtys.contains(d) {
                let i = choose|i: int| 0 <= i < parts.len() && #[trigger] parts[i].dirtys.contains(d);
                if i < rest.len() {
                    assert(rest[i].dirtys.contains(d));
                }
            }
        }
        assert forall|s: usize|
            EffectView::gathered(parts).sheets.contains(s) <==> exists|i: int|
                0 <= i < parts.len() && #[trigger] parts[i].sheets.contains(s) by {
            if before.sheets.contains(s) {
                let i = choose|i: int| 0 <= i < rest.len() && #[trigger] rest[i].sheets.contains(s);
                assert(parts[i].sheets.contains(s));
            }
            if parts.last().sheets.contains(s) {
                assert(parts[parts.len() - 1].sheets.contains(s));
            }
            if exists|i: int| 0 <= i < parts.len() && #[trigger] parts[i].sheets.contains(s) {
                let i = choose|i: int| 0 <= i < parts.len() && #[trigger] parts[i].sheets.contains(s);
                if i < rest.len() {
                    assert(rest[i].sheets.contains(s));
                }
            }
        }
    } else {
        assert forall|d: (SheetId, CellId)| !EffectView::nothing().dirtys.contains(d) by {}
        assert forall|s: usize| !EffectView::nothing().sheets.contains(s) by {}
    }
}

} // verus!
