//! The registry of floating windows: insertion-ordered, keyed by a unique id,
//! pruned of windows that report themselves closed after each frame's drawing.
use vstd::prelude::*;

verus! {

/// A window id: a plain integer, unique within a registry.
pub type WindowId = u64;

/// The error of `add` when a window with the same id is already registered.
#[derive(Debug, Clone, Copy, PartialEq, Eq, Structural)]
pub struct DuplicateIdError {
    pub id: WindowId,
}

/// True when `id` occurs in `ids`.
pub open spec fn has_id(ids: Seq<WindowId>, id: WindowId) -> bool {
    exists|i: int| 0 <= i < ids.len() && ids[i] == id
}

/// No id occurs twice in `ids`.
pub open spec fn ids_unique(ids: Seq<WindowId>) -> bool {
    forall|i: int, j: int| 0 <= i < ids.len() && 0 <= j < ids.len() && i != j ==> ids[i] != ids[j]
}

/// The ids of a sequence of registry entries.
pub open spec fn ids_of<W>(s: Seq<(WindowId, W)>) -> Seq<WindowId> {
    s.map_values(|e: (WindowId, W)| e.0)
}

/// The entries of `s` whose flag in `keep` is true, in their order.
pub open spec fn kept<T>(s: Seq<T>, keep: Seq<bool>) -> Seq<T>
    decreases s.len(),
{
    if s.len() == 0 {
        Seq::empty()
    } else {
        let rest = kept(s.drop_last(), keep.drop_last());
        if keep.last() {
            rest.push(s.last())
        } else {
            rest
        }
    }
}

/// The outcome of registering `window` under `id`: on a duplicate id the error
/// and no change; otherwise the new entry after all the others.
pub open spec fn add_outcome<W>(
    before: Seq<(WindowId, W)>,
    after: Seq<(WindowId, W)>,
    id: WindowId,
    window: W,
    r: Result<(), DuplicateIdError>,
) -> bool {
    if has_id(ids_of(before), id) {
        r == Err::<(), DuplicateIdError>(DuplicateIdError { id }) && after == before
    } else {
        r is Ok && after == before.push((id, window))
    }
}

/// `x` is an entry of `s` whose flag in `keep` is true.
pub open spec fn kept_from<T>(s: Seq<T>, keep: Seq<bool>, x: T) -> bool {
    exists|i: int| 0 <= i < s.len() && keep[i] && s[i] == x
}

/// Each entry of `kept(s, keep)` is an entry of `s` whose flag is true, and back.
pub proof fn lemma_kept_members<T>(s: Seq<T>, keep: Seq<bool>)
    requires
        s.len() == keep.len(),
    ensures
        forall|j: int| 0 <= j < kept(s, keep).len() ==> #[trigger] kept_from(s, keep, kept(s, keep)[j]),
        forall|i: int| 0 <= i < s.len() && keep[i] ==> exists|j: int|
            0 <= j < kept(s, keep).len() && #[trigger] kept(s, keep)[j] == s[i],
    decreases s.len(),
{
    if s.len() > 0 {
        let s0 = s.drop_last();
        let k0 = keep.drop_last();
        lemma_kept_members(s0, k0);
        let r0 = kept(s0, k0);
        assert forall|j: int| 0 <= j < kept(s, keep).len() implies #[trigger] kept_from(s, keep, kept(s, keep)[j]) by {
            if j < r0.len() {
                assert(kept(s, keep)[j] == r0[j]);
                assert(kept_from(s0, k0, r0[j]));
                let i0 = choose|i: int| 0 <= i < s0.len() && k0[i] && s0[i] == r0[j];
                assert(s0[i0] == s[i0] && k0[i0] == keep[i0]);
                assert(kept(s, keep)[j] == s[i0]);
            } else {
                assert(keep[s.len() - 1]);
                assert(kept(s, keep)[j] == s[s.len() - 1]);
            }
        }
        assert forall|i: int| 0 <= i < s.len() && keep[i] implies exists|j: int|
            0 <= j < kept(s, keep).len() && #[trigger] kept(s, keep)[j] == s[i] by {
            if i < s.len() - 1 {
                assert(s0[i] == s[i] && k0[i] == keep[i]);
                let j0 = choose|j: int| 0 <= j < r0.len() && r0[j] == s0[i];
                assert(kept(s, keep)[j0] == s[i]);
            } else {
                assert(kept(s, keep)[kept(s, keep).len() - 1] == s[i]);
            }
        }
    } else {
        assert(kept(s, keep).len() == 0);
    }
}

/// Keeping a subsequence keeps ids unique.
pub proof fn lemma_kept_ids_unique<W>(s: Seq<(WindowId, W)>, keep: Seq<bool>)
    requires
        s.len() == keep.len(),
        ids_unique(ids_of(s)),
    ensures
        ids_unique(ids_of(kept(s, keep))),
    decreases s.len(),
{
    if s.len() > 0 {
        let s0 = s.drop_last();
        let k0 = keep.drop_last();
        assert(ids_of(s0) =~= ids_of(s).drop_last());
        lemma_kept_ids_unique(s0, k0);
        if keep.last() {
            let r0 = kept(s0, k0);
            lemma_kept_members(s0, k0);
            assert forall|j: int| 0 <= j < r0.len() implies r0[j].0 != s.last().0 by {
                assert(kept_from(s0, k0, r0[j]));
                let i = choose|i: int| 0 <= i < s0.len() && k0[i] && s0[i] == r0[j];
                assert(ids_of(s)[i] == s0[i].0);
                assert(ids_of(s)[s.len() - 1] == s.last().0);
            }
            let ids = ids_of(kept(s, keep));
            let ids0 = ids_of(r0);
            assert forall|a: int, b: int| 0 <= a < ids.len() && 0 <= b < ids.len() && a != b
                implies ids[a] != ids[b] by {
                if a < ids0.len() && b < ids0.len() {
                    assert(ids[a] == ids0[a] && ids[b] == ids0[b]);
                }
            }
        }
    }
}

/// An ordered list of windows, each registered under an id of its own.
/// `W` is the caller's window handle (typically a shared, mutable handle).
pub struct WindowRegistry<W> {
    entries: Vec<(WindowId, W)>,
}

impl<W> WindowRegistry<W> {
    /// The registered (id, window) pairs, in insertion order.
    pub closed spec fn entries(&self) -> Seq<(WindowId, W)> {
        self.entries@
    }

    /// The ids of the registered windows, in insertion order.
    pub open spec fn ids(&self) -> Seq<WindowId> {
        ids_of(self.entries())
    }

    /// The registered windows, in insertion order.
    pub open spec fn windows(&self) -> Seq<W> {
        self.entries().map_values(|e: (WindowId, W)| e.1)
    }

    /// Well-formed: ids are unique.
    pub open spec fn wf(&self) -> bool {
        &&& ids_unique(self.ids())
        &&& self.ids().len() == self.windows().len()
    }

    pub fn new() -> (r: Self)
        ensures
            r.wf(),
            r.ids() == Seq::<WindowId>::empty(),
    {
        let r = WindowRegistry { entries: Vec::new() };
        assert(r.ids() =~= Seq::<WindowId>::empty());
        r
    }

    /// Number of registered windows.
    pub fn len(&self) -> (r: usize)
        requires
            self.wf(),
        ensures
            r == self.ids().len(),
    {
        self.entries.len()
    }

    /// True when a window with this id is registered.
    pub fn contains(&self, id: WindowId) -> (r: bool)
        requires
            self.wf(),
        ensures
            r == has_id(self.ids(), id),
    {
        let mut i: usize = 0;
        while i < self.entries.len()
            invariant
                self.wf(),
                0 <= i <= self.ids().len(),
                forall|k: int| 0 <= k < i ==> self.ids()[k] != id,
            decreases self.ids().len() - i,
        {
            if self.entries[i].0 == id {
                assert(self.ids()[i as int] == id);
                return true;
            }
            i += 1;
        }
        false
    }

    /// Register a window under `id`, after all the others.
    /// Fails, leaving the registry as it was, when `id` is already registered.
    pub fn add(&mut self, id: WindowId, window: W) -> (r: Result<(), DuplicateIdError>)
        requires
            old(self).wf(),
        ensures
            final(self).wf(),
            add_outcome(old(self).entries(), final(self).entries(), id, window, r),
    {
        if self.contains(id) {
            return Err(DuplicateIdError { id });
        }
        self.entries.push((id, window));
        assert(self.ids() =~= old(self).ids().push(id));
        Ok(())
    }

    /// Keep the windows whose flag in `open` is true, in their order; drop the others.
    /// `open[i]` is the "still open" answer of the window at position `i`.
    pub fn retain_open(&mut self, open: &Vec<bool>)
        requires
            old(self).wf(),
            open@.len() == old(self).ids().len(),
        ensures
            final(self).wf(),
            final(self).entries() == kept(old(self).entries(), open@),
    {
        let mut rest: Vec<(WindowId, W)> = Vec::new();
        std::mem::swap(&mut rest, &mut self.entries);
        let ghost all = rest@;
        let n = rest.len();
        let mut i: usize = 0;
        assert(self.entries@ =~= kept(all.take(0), open@.take(0)));
        while i < n
            invariant
                n == all.len(),
                n == open@.len(),
                0 <= i <= n,
                rest@ == all.skip(i as int),
                self.entries@ == kept(all.take(i as int), open@.take(i as int)),
                ids_unique(ids_of(all)),
            decreases n - i,
        {
            let e = rest.remove(0);
            assert(all.take(i + 1).drop_last() =~= all.take(i as int));
            assert(open@.take(i + 1).drop_last() =~= open@.take(i as int));
            assert(all.skip(i + 1) =~= all.skip(i as int).subrange(1, (n - i) as int));
            if open[i] {
                self.entries.push(e);
            }
            i += 1;
        }
        assert(all.take(n as int) =~= all);
        assert(open@.take(n as int) =~= open@);
        proof {
            lemma_kept_ids_unique(all, open@);
        }
    }

    /// One frame of drawing. The windows registered now are drawn in order (their
    /// ids are returned, in that order); windows opened meanwhile join after them
    /// when their ids are fresh, and are not drawn in this frame. Then every
    /// window is asked whether it is still open, and the closed ones are dropped.
    pub fn draw<P: WindowPainter<W>>(&mut self, painter: &mut P) -> (drawn: Vec<WindowId>)
        requires
            old(self).wf(),
        ensures
            final(self).wf(),
            drawn@ == old(self).ids(),
            exists|added: Seq<(WindowId, W)>, open: Seq<bool>|
                open.len() == old(self).entries().len() + added.len()
                && (forall|i: int| 0 <= i < added.len() ==> !has_id(old(self).ids(), #[trigger] added[i].0))
                && final(self).entries() == kept(old(self).entries() + added, open)
                && forall|i: int| 0 <= i < old(self).ids().len() ==>
                    (has_id(final(self).ids(), #[trigger] old(self).ids()[i]) <==> open[i]),
    {
        let ghost before = self.entries();
        let n = self.entries.len();
        let mut taken: Vec<WindowId> = Vec::new();
        let mut drawn: Vec<WindowId> = Vec::new();
        let mut i: usize = 0;
        while i < n
            invariant
                n == before.len(),
                self.entries() == before,
                0 <= i <= n,
                taken@ == ids_of(before).take(i as int),
            decreases n - i,
        {
            taken.push(self.entries[i].0);
            assert(taken@ =~= ids_of(before).take(i + 1));
            i += 1;
        }
        let mut new_windows = NewWindows { taken, entries: Vec::new() };
        let mut i: usize = 0;
        while i < n
            invariant
                n == before.len(),
                self.entries() == before,
                self.wf(),
                0 <= i <= n,
                drawn@ == ids_of(before).take(i as int),
            decreases n - i,
        {
            painter.paint(&self.entries[i].1, &mut new_windows);
            drawn.push(self.entries[i].0);
            assert(drawn@ =~= ids_of(before).take(i + 1));
            i += 1;
        }
        assert(drawn@ =~= ids_of(before));
        let mut pending = new_windows.entries;
        let ghost mut added: Seq<(WindowId, W)> = Seq::empty();
        assert(before + added =~= before);
        while pending.len() > 0
            invariant
                self.wf(),
                self.entries() == before + added,
                forall|k: int| 0 <= k < added.len() ==> !has_id(ids_of(before), #[trigger] added[k].0),
            decreases pending@.len(),
        {
            let (id, w) = pending.remove(0);
            let ghost mid = self.entries();
            match self.add(id, w) {
                Ok(()) => {
                    proof {
                        if has_id(ids_of(before), id) {
                            let k = choose|k: int| 0 <= k < ids_of(before).len() && ids_of(before)[k] == id;
                            assert(ids_of(mid)[k] == ids_of(before)[k]);
                        }
                        added = added.push((id, w));
                        assert(self.entries() =~= before + added);
                    }
                },
                Err(_) => {},
            }
        }
        let ghost mid = self.entries();
        let mut open: Vec<bool> = Vec::new();
        let len = self.entries.len();
        let mut j: usize = 0;
        while j < len
            invariant
                self.wf(),
                self.entries() == mid,
                len == mid.len(),
                0 <= j <= len,
                open@.len() == j,
            decreases len - j,
        {
            let o = painter.is_open(&self.entries[j].1);
            open.push(o);
            j += 1;
        }
        proof {
            lemma_retain_prunes_closed(mid, open@);
        }
        self.retain_open(&open);
        proof {
            assert forall|i: int| 0 <= i < before.len() implies
                (has_id(self.ids(), #[trigger] ids_of(before)[i]) <==> open@[i]) by {
                assert(mid[i] == before[i]);
                assert(ids_of(before)[i] == before[i].0);
            }
        }
        drawn
    }

    /// The window at position `i` in insertion order.
    pub fn window(&self, i: usize) -> (r: &W)
        requires
            self.wf(),
            i < self.ids().len(),
        ensures
            *r == self.windows()[i as int],
    {
        &self.entries[i].1
    }

    /// The id of the window at position `i` in insertion order.
    pub fn id_at(&self, i: usize) -> (r: WindowId)
        requires
            self.wf(),
            i < self.ids().len(),
        ensures
            r == self.ids()[i as int],
    {
        self.entries[i].0
    }
}

/// Draws windows for `WindowRegistry::draw` and answers whether each is still open.
/// Nothing is assumed of what an implementation does.
pub trait WindowPainter<W> {
    /// Draw one window; windows it opens go into `new_windows`.
    fn paint(&mut self, window: &W, new_windows: &mut NewWindows<W>);

    /// The window's "still open" answer, asked after this frame's drawing.
    fn is_open(&mut self, window: &W) -> bool;
}

/// Windows opened while a frame is drawn. They join the registry after the
/// frame's drawing, so they are not drawn in that frame.
pub struct NewWindows<W> {
    taken: Vec<WindowId>,
    entries: Vec<(WindowId, W)>,
}

impl<W> NewWindows<W> {
    /// The ids in use: those registered when drawing began, then those added.
    pub closed spec fn taken(&self) -> Seq<WindowId> {
        self.taken@
    }

    /// The windows added so far, in order.
    pub closed spec fn added(&self) -> Seq<(WindowId, W)> {
        self.entries@
    }

    /// Open a window under `id`; fails when `id` is already in use.
    pub fn add(&mut self, id: WindowId, window: W) -> (r: Result<(), DuplicateIdError>)
        ensures
            r is Err <==> has_id(old(self).taken(), id),
            r is Err ==> r == Err::<(), DuplicateIdError>(DuplicateIdError { id })
                && final(self).taken() == old(self).taken() && final(self).added() == old(self).added(),
            r is Ok ==> final(self).taken() == old(self).taken().push(id)
                && final(self).added() == old(self).added().push((id, window)),
    {
        let mut i: usize = 0;
        while i < self.taken.len()
            invariant
                0 <= i <= self.taken@.len(),
                forall|k: int| 0 <= k < i ==> self.taken@[k] != id,
            decreases self.taken@.len() - i,
        {
            if self.taken[i] == id {
                assert(self.taken@[i as int] == id);
                return Err(DuplicateIdError { id });
            }
            i += 1;
        }
        self.taken.push(id);
        self.entries.push((id, window));
        Ok(())
    }
}

/// Source of window ids: 1, 2, 3, ... in a process lifetime no id comes twice.
pub struct IdCounter {
    last: u64,
}

impl IdCounter {
    /// How many ids have been handed out; also the last id handed out.
    pub closed spec fn issued(&self) -> nat {
        self.last as nat
    }

    pub fn new() -> (r: Self)
        ensures
            r.issued() == 0,
    {
        IdCounter { last: 0 }
    }

    /// How many ids have been handed out.
    pub fn issued_count(&self) -> (r: u64)
        ensures
            r == self.issued(),
    {
        self.last
    }

    /// The next id: one more than the previous, starting at 1, so above every id
    /// handed out before.
    pub fn get_unique_id(&mut self) -> (r: WindowId)
        requires
            old(self).issued() < u64::MAX,
        ensures
            r == old(self).issued() + 1,
            final(self).issued() == r,
    {
        self.last = self.last + 1;
        self.last
    }
}

/// Adding a window under an id that is already registered returns the
/// duplicate-id error and leaves the registry's contents as they were.
pub proof fn lemma_duplicate_add_rejected<W>(
    before: Seq<(WindowId, W)>,
    after: Seq<(WindowId, W)>,
    id: WindowId,
    window: W,
    r: Result<(), DuplicateIdError>,
)
    requires
        add_outcome(before, after, id, window, r),
        has_id(ids_of(before), id),
    ensures
        r == Err::<(), DuplicateIdError>(DuplicateIdError { id }),
        after == before,
{
}

/// Adding never disturbs the windows already registered: the first `before.len()`
/// entries stay as they were, and a new window lands after them. So a frame that
/// draws the entries present when it began never draws a window added meanwhile.
pub proof fn lemma_add_keeps_drawn_prefix<W>(
    before: Seq<(WindowId, W)>,
    after: Seq<(WindowId, W)>,
    id: WindowId,
    window: W,
    r: Result<(), DuplicateIdError>,
)
    requires
        add_outcome(before, after, id, window, r),
    ensures
        after.len() >= before.len(),
        after.take(before.len() as int) == before,
        r is Ok ==> after.len() == before.len() + 1 && after[before.len() as int] == (id, window),
{
    if r is Ok {
        assert(after.take(before.len() as int) =~= before);
    } else {
        assert(after.take(before.len() as int) =~= before);
    }
}

/// After pruning with the windows' "still open" answers, a window that answered
/// false is no longer registered, and one that answered true still is.
pub proof fn lemma_retain_prunes_closed<W>(before: Seq<(WindowId, W)>, open: Seq<bool>)
    requires
        open.len() == before.len(),
        ids_unique(ids_of(before)),
    ensures
        forall|i: int| 0 <= i < before.len() ==>
            (has_id(ids_of(kept(before, open)), #[trigger] before[i].0) <==> open[i]),
{
    lemma_kept_members(before, open);
    let after = kept(before, open);
    assert forall|i: int| 0 <= i < before.len() implies
        (has_id(ids_of(after), #[trigger] before[i].0) <==> open[i]) by {
        if open[i] {
            let j = choose|j: int| 0 <= j < after.len() && #[trigger] after[j] == before[i];
            assert(ids_of(after)[j] == before[i].0);
        }
        if has_id(ids_of(after), before[i].0) {
            let j = choose|j: int| 0 <= j < ids_of(after).len() && ids_of(after)[j] == before[i].0;
            assert(after[j].0 == before[i].0);
            assert(kept_from(before, open, after[j]));
            let k = choose|k: int| 0 <= k < before.len() && open[k] && before[k] == after[j];
            assert(ids_of(before)[k] == before[k].0 && ids_of(before)[i] == before[i].0);
        }
    }
}

} // verus!
