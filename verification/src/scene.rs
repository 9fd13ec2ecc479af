//! The display layout a frame is drawn against, and the per-frame scene data
//! that modules see.

use vstd::prelude::*;

use crate::display::{uninitialized_display, Display, DisplayView};

verus! {

/// The views of a list of displays.
pub open spec fn display_views(displays: Seq<Display>) -> Seq<DisplayView> {
    displays.map_values(|d: Display| d@)
}

/// The index of the first display flagged as primary, or `-1` when none is.
pub open spec fn first_primary_index(displays: Seq<DisplayView>) -> int
    decreases displays.len(),
{
    if displays.len() == 0 {
        -1
    } else if displays[0].primary {
        0
    } else {
        let rest = first_primary_index(displays.drop_first());
        if rest < 0 {
            -1
        } else {
            rest + 1
        }
    }
}

/// The display chosen as primary: the first one flagged primary, otherwise the
/// first one, otherwise the uninitialized placeholder.
pub open spec fn choose_primary(displays: Seq<DisplayView>) -> DisplayView {
    let flagged = first_primary_index(displays);
    if flagged >= 0 {
        displays[flagged]
    } else if displays.len() > 0 {
        displays[0]
    } else {
        uninitialized_display()
    }
}

/// The index of the last display with the given id, or `-1` when none has it.
pub open spec fn last_index_with_id(displays: Seq<DisplayView>, id: Seq<char>) -> int
    decreases displays.len(),
{
    if displays.len() == 0 {
        -1
    } else if displays.last().id == id {
        displays.len() - 1
    } else {
        last_index_with_id(displays.drop_last(), id)
    }
}

/// What `first_primary_index` finds is flagged, and nothing before it is.
pub proof fn lemma_first_primary_index(displays: Seq<DisplayView>)
    ensures
        -1 <= first_primary_index(displays) < displays.len(),
        first_primary_index(displays) >= 0 ==> displays[first_primary_index(displays)].primary,
        forall|j: int|
            0 <= j < displays.len() && (first_primary_index(displays) < 0 || j
                < first_primary_index(displays)) ==> !(#[trigger] displays[j]).primary,
    decreases displays.len(),
{
    if displays.len() > 0 && !displays[0].primary {
        lemma_first_primary_index(displays.drop_first());
        assert forall|j: int|
            0 <= j < displays.len() && (first_primary_index(displays) < 0 || j
                < first_primary_index(displays)) implies !(#[trigger] displays[j]).primary by {
            if j > 0 {
                assert(displays[j] == displays.drop_first()[j - 1]);
            }
        }
    }
}

/// What `last_index_with_id` finds carries the id, and nothing after it does.
pub proof fn lemma_last_index_with_id(displays: Seq<DisplayView>, id: Seq<char>)
    ensures
        -1 <= last_index_with_id(displays, id) < displays.len(),
        last_index_with_id(displays, id) >= 0 ==> displays[last_index_with_id(displays, id)].id
            == id,
        forall|j: int|
            0 <= j < displays.len() && last_index_with_id(displays, id) < j ==> (
            #[trigger] displays[j]).id != id,
    decreases displays.len(),
{
    if displays.len() > 0 && displays.last().id != id {
        let front = displays.drop_last();
        lemma_last_index_with_id(front, id);
        assert forall|j: int|
            0 <= j < displays.len() && last_index_with_id(displays, id) < j implies (
            #[trigger] displays[j]).id != id by {
            if j < displays.len() - 1 {
                assert(displays[j] == front[j]);
            }
        }
    }
}

/// The primary display is one of the displays when there are any, it is flagged
/// primary whenever one of them is, and without displays it is the placeholder.
pub proof fn lemma_primary_choice(displays: Seq<DisplayView>)
    ensures
        displays.len() > 0 ==> displays.contains(choose_primary(displays)),
        (exists|i: int| 0 <= i < displays.len() && (#[trigger] displays[i]).primary)
            ==> choose_primary(displays).primary,
        displays.len() == 0 ==> choose_primary(displays) == uninitialized_display(),
{
    lemma_first_primary_index(displays);
    let flagged = first_primary_index(displays);
    if flagged >= 0 {
        assert(displays[flagged] == choose_primary(displays));
    } else if displays.len() > 0 {
        assert(displays[0] == choose_primary(displays));
    }
}

/// A lookup by id finds a display exactly when one carries the id, and what it
/// finds carries the id.
pub proof fn lemma_lookup_finds_id(displays: Seq<DisplayView>, id: Seq<char>)
    ensures
        last_index_with_id(displays, id) >= 0 <==> exists|i: int|
            0 <= i < displays.len() && (#[trigger] displays[i]).id == id,
        last_index_with_id(displays, id) >= 0 ==> displays[last_index_with_id(displays, id)].id
            == id,
{
    lemma_last_index_with_id(displays, id);
    if last_index_with_id(displays, id) >= 0 {
        let i = last_index_with_id(displays, id);
        assert(displays[i].id == id);
    }
}

/// The displays known to the renderer, with the one chosen as primary.
pub struct DisplayLayout {
    primary_display: Display,
    displays: Vec<Display>,
}

impl DisplayLayout {
    /// The primary display in use.
    pub closed spec fn primary_view(&self) -> DisplayView {
        self.primary_display@
    }

    /// All known displays, in the order they were reported.
    pub closed spec fn display_list(&self) -> Seq<DisplayView> {
        display_views(self.displays@)
    }

    /// A layout before any display has been reported.
    pub fn new() -> (layout: Self)
        ensures
            layout.primary_view() == uninitialized_display(),
            layout.display_list() == Seq::<DisplayView>::empty(),
    {
        let layout = Self { primary_display: Display::uninitialized(), displays: Vec::new() };
        assert(layout.display_list() =~= Seq::<DisplayView>::empty());
        layout
    }

    /// Replaces the known displays and chooses the primary one among them.
    pub fn update_displays(&mut self, displays: Vec<Display>)
        ensures
            final(self).display_list() == display_views(displays@),
            final(self).primary_view() == choose_primary(display_views(displays@)),
    {
        let ghost views = display_views(displays@);
        let mut found: Option<usize> = None;
        let mut i: usize = 0;
        while i < displays.len()
            invariant
                i <= displays@.len(),
                views == display_views(displays@),
                found is None ==> forall|j: int| 0 <= j < i ==> !(#[trigger] views[j]).primary,
                found matches Some(k) ==> k == first_primary_index(views),
            decreases displays@.len() - i,
        {
            proof {
                lemma_first_primary_index(views);
            }
            if found.is_none() && displays[i].primary() {
                found = Some(i);
                proof {
                    let f = first_primary_index(views);
                    assert(views[i as int].primary);
                    assert(f >= 0 && f <= i) by {
                        if f < 0 || f > i {
                            assert(!views[i as int].primary);
                        }
                    }
                    if f < i {
                        assert(views[f].primary);
                    }
                }
            }
            i = i + 1;
        }
        proof {
            lemma_first_primary_index(views);
            if found is None {
                if first_primary_index(views) >= 0 {
                    assert(views[first_primary_index(views)].primary);
                }
            }
        }
        let primary = match found {
            Some(k) => displays[k].clone(),
            None => if displays.len() > 0 {
                displays[0].clone()
            } else {
                Display::uninitialized()
            },
        };
        self.primary_display = primary;
        self.displays = displays;
    }

    /// The primary display in use.
    pub fn primary_display(&self) -> (display: &Display)
        ensures
            display@ == self.primary_view(),
    {
        &self.primary_display
    }

    /// Finds a display by its id; when several share the id, the one reported last wins.
    pub fn lookup_display(&self, id: &String) -> (display: Option<&Display>)
        ensures
            ({
                let index = last_index_with_id(self.display_list(), id@);
                if index >= 0 {
                    display matches Some(d) && d@ == self.display_list()[index]
                } else {
                    display is None
                }
            }),
    {
        let ghost views = self.display_list();
        let mut i: usize = self.displays.len();
        proof {
            assert(views.take(i as int) =~= views);
        }
        while i > 0
            invariant
                i <= self.displays@.len(),
                views == self.display_list(),
                last_index_with_id(views, id@) == last_index_with_id(views.take(i as int), id@),
            decreases i,
        {
            let candidate = &self.displays[i - 1];
            let ghost prefix = views.take(i as int);
            proof {
                assert(prefix.last() == candidate@);
                assert(prefix.drop_last() =~= views.take(i - 1));
            }
            let same = candidate.id().eq(id);
            proof {
                assert(same == (candidate@.id == id@));
            }
            if same {
                proof {
                    assert(last_index_with_id(prefix, id@) == i - 1);
                }
                return Some(candidate);
            }
            i = i - 1;
        }
        proof {
            assert(views.take(0) =~= Seq::<DisplayView>::empty());
        }
        None
    }
}

/// The data a module sees while it renders one frame.
pub struct SceneData<'a> {
    layout: &'a DisplayLayout,
    width: i32,
    height: i32,
}

impl<'a> SceneData<'a> {
    /// The displays of this frame.
    pub closed spec fn layout(&self) -> &'a DisplayLayout {
        self.layout
    }

    /// The width of the whole drawing surface.
    pub closed spec fn surface_width(&self) -> i32 {
        self.width
    }

    /// The height of the whole drawing surface.
    pub closed spec fn surface_height(&self) -> i32 {
        self.height
    }

    /// Scene data for a surface of the given size.
    pub fn new(layout: &'a DisplayLayout, width: i32, height: i32) -> (data: Self)
        ensures
            data.layout() == layout,
            data.surface_width() == width,
            data.surface_height() == height,
    {
        Self { layout, width, height }
    }

    /// The width of the whole drawing surface.
    pub fn width(&self) -> (width: i32)
        ensures
            width == self.surface_width(),
    {
        self.width
    }

    /// The height of the whole drawing surface.
    pub fn height(&self) -> (height: i32)
        ensures
            height == self.surface_height(),
    {
        self.height
    }

    /// The primary display.
    pub fn primary_display(&self) -> (display: &Display)
        ensures
            display@ == self.layout().primary_view(),
    {
        self.layout.primary_display()
    }

    /// Finds a display by its id.
    pub fn lookup_display(&self, id: &String) -> (display: Option<&Display>)
        ensures
            ({
                let index = last_index_with_id(self.layout().display_list(), id@);
                if index >= 0 {
                    display matches Some(d) && d@ == self.layout().display_list()[index]
                } else {
                    display is None
                }
            }),
    {
        self.layout.lookup_display(id)
    }
}

} // verus!
