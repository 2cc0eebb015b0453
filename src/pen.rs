use vstd::prelude::*;

verus! {

/// The drawing tools that the sidebar offers, one page each.
#[derive(Clone, Copy, Debug, PartialEq, Eq, Structural)]
pub enum PenKind {
    Marker,
    Brush,
    Shaper,
    Eraser,
    Selector,
}

/// The name under which the stack shows the page of pen `k`.
pub open spec fn page_name_of(k: PenKind) -> Seq<char> {
    match k {
        PenKind::Marker => "marker_page"@,
        PenKind::Brush => "brush_page"@,
        PenKind::Shaper => "shaper_page"@,
        PenKind::Eraser => "eraser_page"@,
        PenKind::Selector => "selector_page"@,
    }
}

/// The pen whose page is called `name`, if any.
pub open spec fn pen_of_page(name: Seq<char>) -> Option<PenKind> {
    if name == "marker_page"@ {
        Some(PenKind::Marker)
    } else if name == "brush_page"@ {
        Some(PenKind::Brush)
    } else if name == "shaper_page"@ {
        Some(PenKind::Shaper)
    } else if name == "eraser_page"@ {
        Some(PenKind::Eraser)
    } else if name == "selector_page"@ {
        Some(PenKind::Selector)
    } else {
        None
    }
}

/// The name that the application's current-pen action takes for pen `k`.
pub open spec fn action_target_of(k: PenKind) -> Seq<char> {
    match k {
        PenKind::Marker => "marker"@,
        PenKind::Brush => "brush"@,
        PenKind::Shaper => "shaper"@,
        PenKind::Eraser => "eraser"@,
        PenKind::Selector => "selector"@,
    }
}

/// The order in which the sidebar sets up its tool pages.
pub open spec fn init_order_spec() -> Seq<PenKind> {
    seq![PenKind::Marker, PenKind::Brush, PenKind::Shaper, PenKind::Eraser, PenKind::Selector]
}

/// How many times pen `k` occurs in `s`.
pub open spec fn occurrences(s: Seq<PenKind>, k: PenKind) -> nat
    decreases s.len(),
{
    if s.len() == 0 {
        0
    } else {
        occurrences(s.drop_last(), k) + if s.last() == k { 1nat } else { 0nat }
    }
}

impl PenKind {
    /// The name under which the stack shows this pen's page.
    pub fn page_name(&self) -> (r: &'static str)
        ensures
            r@ == page_name_of(*self),
    {
        match self {
            PenKind::Marker => "marker_page",
            PenKind::Brush => "brush_page",
            PenKind::Shaper => "shaper_page",
            PenKind::Eraser => "eraser_page",
            PenKind::Selector => "selector_page",
        }
    }

    /// The value handed to the application's current-pen action for this pen.
    pub fn action_target(&self) -> (r: &'static str)
        ensures
            r@ == action_target_of(*self),
    {
        match self {
            PenKind::Marker => "marker",
            PenKind::Brush => "brush",
            PenKind::Shaper => "shaper",
            PenKind::Eraser => "eraser",
            PenKind::Selector => "selector",
        }
    }

    /// Resolves a page name of the stack to the pen it stands for.
    pub fn from_page_name(name: &String) -> (r: Option<PenKind>)
        ensures
            r == pen_of_page(name@),
    {
        if *name == "marker_page".to_owned() {
            Some(PenKind::Marker)
        } else if *name == "brush_page".to_owned() {
            Some(PenKind::Brush)
        } else if *name == "shaper_page".to_owned() {
            Some(PenKind::Shaper)
        } else if *name == "eraser_page".to_owned() {
            Some(PenKind::Eraser)
        } else if *name == "selector_page".to_owned() {
            Some(PenKind::Selector)
        } else {
            None
        }
    }
}

/// The tool pages in the order in which the sidebar initialises them.
pub fn init_order() -> (r: Vec<PenKind>)
    ensures
        r@ == init_order_spec(),
{
    vec![PenKind::Marker, PenKind::Brush, PenKind::Shaper, PenKind::Eraser, PenKind::Selector]
}

/// Each pen's page is named by a name that resolves back to that pen, and to
/// no other.
pub proof fn lemma_page_name_resolves(k: PenKind)
    ensures
        pen_of_page(page_name_of(k)) == Some(k),
{
    reveal_strlit("marker_page");
    reveal_strlit("brush_page");
    reveal_strlit("shaper_page");
    reveal_strlit("eraser_page");
    reveal_strlit("selector_page");
    assert("marker_page"@[0] == 'm');
    assert("brush_page"@[0] == 'b');
    assert("shaper_page"@[0] == 's' && "shaper_page"@.len() == 11);
    assert("eraser_page"@[0] == 'e');
    assert("selector_page"@[0] == 's' && "selector_page"@.len() == 13);
}

/// A name that is no pen's page name resolves to no pen.
pub proof fn lemma_unknown_page_resolves_to_none(name: Seq<char>)
    requires
        forall|k: PenKind| name != #[trigger] page_name_of(k),
    ensures
        pen_of_page(name).is_none(),
{
    assert(name != page_name_of(PenKind::Marker));
    assert(name != page_name_of(PenKind::Brush));
    assert(name != page_name_of(PenKind::Shaper));
    assert(name != page_name_of(PenKind::Eraser));
    assert(name != page_name_of(PenKind::Selector));
}

/// Initialisation visits the page of every pen exactly once.
pub proof fn lemma_init_order_visits_each_once(k: PenKind)
    ensures
        occurrences(init_order_spec(), k) == 1,
{
    let s = init_order_spec();
    assert(s.drop_last() =~= seq![PenKind::Marker, PenKind::Brush, PenKind::Shaper, PenKind::Eraser]);
    assert(s.drop_last().drop_last() =~= seq![PenKind::Marker, PenKind::Brush, PenKind::Shaper]);
    assert(s.drop_last().drop_last().drop_last() =~= seq![PenKind::Marker, PenKind::Brush]);
    assert(s.drop_last().drop_last().drop_last().drop_last() =~= seq![PenKind::Marker]);
    assert(s.drop_last().drop_last().drop_last().drop_last().drop_last() =~= Seq::<PenKind>::empty());
    reveal_with_fuel(occurrences, 6);
}

} // verus!
