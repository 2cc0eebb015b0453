use vstd::prelude::*;

use crate::pen::{lemma_page_name_resolves, lemma_unknown_page_resolves_to_none, page_name_of, pen_of_page, PenKind};

verus! {

/// The pen to select when the stack's visible page becomes `name`, for a
/// bridge that is or is not still attached to its stack.
pub open spec fn pen_for_event(attached: bool, name: Option<Seq<char>>) -> Option<PenKind> {
    if !attached {
        None
    } else {
        match name {
            Some(n) => pen_of_page(n),
            None => None,
        }
    }
}

/// The view of a visible-page event: the page's name as characters.
pub open spec fn event_view(name: Option<String>) -> Option<Seq<char>> {
    match name {
        Some(s) => Some(s@),
        None => None,
    }
}

/// The view of a borrowed visible-page name.
pub open spec fn name_view(name: Option<&String>) -> Option<Seq<char>> {
    match name {
        Some(s) => Some(s@),
        None => None,
    }
}

/// The pens selected, in order, for a run of visible-page events.
pub open spec fn calls_for_events(attached: bool, names: Seq<Option<Seq<char>>>) -> Seq<PenKind>
    decreases names.len(),
{
    if names.len() == 0 {
        Seq::empty()
    } else {
        let init = calls_for_events(attached, names.drop_last());
        match pen_for_event(attached, names.last()) {
            Some(k) => init.push(k),
            None => init,
        }
    }
}

/// Translates the visible-page changes of the sidebar's stack into selections
/// of the current pen, for as long as the stack exists.
pub struct PenSelectorBridge {
    attached: bool,
}

impl PenSelectorBridge {
    /// Whether the bridge still forwards events, i.e. its stack has not been
    /// destroyed.
    pub closed spec fn is_attached(&self) -> bool {
        self.attached
    }

    /// A bridge attached to a freshly built stack.
    pub fn new() -> (r: PenSelectorBridge)
        ensures
            r.is_attached(),
    {
        PenSelectorBridge { attached: true }
    }

    /// Whether the bridge still forwards events.
    pub fn is_active(&self) -> (r: bool)
        ensures
            r == self.is_attached(),
    {
        self.attached
    }

    /// Called when the stack is destroyed: no event is forwarded afterwards.
    pub fn detach(&mut self)
        ensures
            !final(self).is_attached(),
    {
        self.attached = false;
    }

    /// Decides what a change of the stack's visible page does: the pen to
    /// select, or `None` when nothing is to be done (no visible page, a name
    /// that is no pen's page, or a detached bridge).
    pub fn on_active_page_changed(&self, name: Option<&String>) -> (r: Option<PenKind>)
        ensures
            r == pen_for_event(self.is_attached(), name_view(name)),
    {
        if !self.attached {
            return None;
        }
        match name {
            Some(n) => PenKind::from_page_name(n),
            None => None,
        }
    }

    /// The pens selected, in order, when the stack reports the visible pages
    /// `names` one after another.
    pub fn pen_calls(&self, names: &Vec<Option<String>>) -> (r: Vec<PenKind>)
        ensures
            r@ == calls_for_events(self.is_attached(), names@.map_values(|o: Option<String>| event_view(o))),
    {
        let ghost events = names@.map_values(|o: Option<String>| event_view(o));
        let mut out: Vec<PenKind> = Vec::new();
        let mut i: usize = 0;
        while i < names.len()
            invariant
                i <= names.len(),
                events == names@.map_values(|o: Option<String>| event_view(o)),
                out@ == calls_for_events(self.is_attached(), events.take(i as int)),
            decreases names.len() - i,
        {
            assert(events.take(i as int + 1).drop_last() =~= events.take(i as int));
            let step = match &names[i] {
                Some(n) => self.on_active_page_changed(Some(n)),
                None => self.on_active_page_changed(None),
            };
            if let Some(k) = step {
                out.push(k);
            }
            i = i + 1;
        }
        assert(events.take(names.len() as int) =~= events);
        out
    }
}

/// While attached, a change to the page of pen `k` selects exactly `k`, once.
pub proof fn lemma_known_page_selects_its_pen(k: PenKind)
    ensures
        pen_for_event(true, Some(page_name_of(k))) == Some(k),
        calls_for_events(true, seq![Some(page_name_of(k))]) == seq![k],
{
    lemma_page_name_resolves(k);
    let names = seq![Some(page_name_of(k))];
    assert(names.drop_last() =~= Seq::<Option<Seq<char>>>::empty());
    assert(calls_for_events(true, names.drop_last()) == Seq::<PenKind>::empty());
    assert(names.last() == Some(page_name_of(k)));
    assert(calls_for_events(true, names) =~= seq![k]);
}

/// A change to no page, or to a page that belongs to no pen, selects nothing.
pub proof fn lemma_unknown_page_selects_nothing(attached: bool, name: Option<Seq<char>>)
    requires
        forall|k: PenKind| name != Some(#[trigger] page_name_of(k)),
    ensures
        pen_for_event(attached, name).is_none(),
        calls_for_events(attached, seq![name]) == Seq::<PenKind>::empty(),
{
    if let Some(n) = name {
        assert forall|k: PenKind| n != #[trigger] page_name_of(k) by {
            assert(name != Some(page_name_of(k)));
        }
        lemma_unknown_page_resolves_to_none(n);
    }
    let names = seq![name];
    assert(names.drop_last() =~= Seq::<Option<Seq<char>>>::empty());
    assert(calls_for_events(attached, names.drop_last()) == Seq::<PenKind>::empty());
    assert(names.last() == name);
}

/// Events are handled one by one and in order: the selections made for two
/// runs of events back to back are those of the first run followed by those
/// of the second.
pub proof fn lemma_calls_concatenate(attached: bool, a: Seq<Option<Seq<char>>>, b: Seq<Option<Seq<char>>>)
    ensures
        calls_for_events(attached, a + b) == calls_for_events(attached, a) + calls_for_events(attached, b),
    decreases b.len(),
{
    if b.len() == 0 {
        assert(a + b =~= a);
        assert(calls_for_events(attached, a) + calls_for_events(attached, b) =~= calls_for_events(attached, a));
    } else {
        assert((a + b).drop_last() =~= a + b.drop_last());
        assert((a + b).last() == b.last());
        lemma_calls_concatenate(attached, a, b.drop_last());
        match pen_for_event(attached, b.last()) {
            Some(k) => {
                assert(calls_for_events(attached, a) + calls_for_events(attached, b) =~= (calls_for_events(attached, a) + calls_for_events(attached, b.drop_last())).push(k));
            },
            None => {},
        }
    }
}

/// Each event selects at most one pen: a run of events never selects more
/// pens than it has events.
pub proof fn lemma_at_most_one_call_per_event(attached: bool, names: Seq<Option<Seq<char>>>)
    ensures
        calls_for_events(attached, names).len() <= names.len(),
    decreases names.len(),
{
    if names.len() > 0 {
        lemma_at_most_one_call_per_event(attached, names.drop_last());
    }
}

/// Once its stack is gone, a bridge selects no pen, whatever events still
/// arrive.
pub proof fn lemma_detached_bridge_is_silent(names: Seq<Option<Seq<char>>>)
    ensures
        calls_for_events(false, names) == Seq::<PenKind>::empty(),
    decreases names.len(),
{
    if names.len() > 0 {
        lemma_detached_bridge_is_silent(names.drop_last());
    }
}

} // verus!
