use vstd::prelude::*;

use crate::geometry::Rect;
use crate::text::str_to_string;

verus! {

/// Dock widget capabilities (`QDockWidget::DockWidgetFeatures`), as bit flags.
#[derive(Clone, Copy, Debug, PartialEq, Eq, Structural)]
pub struct DockFeatures(pub u32);

impl DockFeatures {
    /// No feature.
    pub open spec fn spec_none() -> DockFeatures {
        DockFeatures(0)
    }

    /// No feature.
    pub fn none() -> (r: DockFeatures)
        ensures
            r == Self::spec_none(),
    {
        DockFeatures(0)
    }

    /// The dock widget can be closed.
    pub open spec fn spec_closable() -> DockFeatures {
        DockFeatures(1)
    }

    /// The dock widget can be closed.
    pub fn closable() -> (r: DockFeatures)
        ensures
            r == Self::spec_closable(),
    {
        DockFeatures(1)
    }

    /// The dock widget can be moved between dock areas.
    pub open spec fn spec_movable() -> DockFeatures {
        DockFeatures(2)
    }

    /// The dock widget can be moved between dock areas.
    pub fn movable() -> (r: DockFeatures)
        ensures
            r == Self::spec_movable(),
    {
        DockFeatures(2)
    }

    /// The dock widget can float.
    pub open spec fn spec_floatable() -> DockFeatures {
        DockFeatures(4)
    }

    /// The dock widget can float.
    pub fn floatable() -> (r: DockFeatures)
        ensures
            r == Self::spec_floatable(),
    {
        DockFeatures(4)
    }

    /// Every feature.
    pub open spec fn spec_all() -> DockFeatures {
        DockFeatures(7)
    }

    /// Every feature.
    pub fn all() -> (r: DockFeatures)
        ensures
            r == Self::spec_all(),
    {
        DockFeatures(7)
    }


    /// Every flag of `f` is set in `self`.
    pub open spec fn spec_contains(self, f: DockFeatures) -> bool {
        self.0 & f.0 == f.0
    }

    /// Whether every flag of `f` is set.
    pub fn contains(self, f: DockFeatures) -> (r: bool)
        ensures
            r == self.spec_contains(f),
    {
        self.0 & f.0 == f.0
    }
}

/// Height of the title bar above the docked content.
pub const DOCK_TITLE_HEIGHT: i32 = 24;

/// A titled panel holding one content widget that can float (`QDockWidget`).
pub struct DockWidget {
    title: String,
    features: DockFeatures,
    floating: bool,
    content: Option<u64>,
    geometry: Rect,
    visible: bool,
}

/// Where the content of a dock widget with geometry `g` is placed: below the
/// title bar, with the height left over (never negative).
pub open spec fn spec_content_rect(g: Rect) -> Rect {
    Rect {
        x: g.x,
        y: (g.y + DOCK_TITLE_HEIGHT) as i32,
        width: g.width,
        height: if g.height - DOCK_TITLE_HEIGHT > 0 {
            (g.height - DOCK_TITLE_HEIGHT) as i32
        } else {
            0
        },
    }
}

/// What a dock widget applies to its content widget: the content goes to
/// `rect` and is shown exactly when the dock widget is.
#[derive(Clone, Copy, Debug, PartialEq, Eq, Structural)]
pub struct ContentPlacement {
    pub widget: u64,
    pub rect: Rect,
    pub visible: bool,
}

/// The dock widget's title bar leaves room for the content: the content
/// rectangle's top edge is an `i32`.
pub open spec fn content_fits(g: Rect) -> bool {
    g.y + DOCK_TITLE_HEIGHT <= i32::MAX
}

impl DockWidget {
    /// The title, as characters.
    pub closed spec fn spec_title(&self) -> Seq<char> {
        self.title@
    }

    /// The enabled features.
    pub closed spec fn spec_features(&self) -> DockFeatures {
        self.features
    }

    /// Whether the dock widget floats.
    pub closed spec fn spec_floating(&self) -> bool {
        self.floating
    }

    /// The identifier of the content widget.
    pub closed spec fn spec_content(&self) -> Option<u64> {
        self.content
    }

    /// The dock widget's geometry.
    pub closed spec fn spec_geometry(&self) -> Rect {
        self.geometry
    }

    /// Whether the dock widget is shown.
    pub closed spec fn spec_visible(&self) -> bool {
        self.visible
    }

    /// The placement the content receives whenever the dock widget lays it
    /// out: below the title bar, visible with the dock widget.
    pub open spec fn spec_placement(&self) -> Option<ContentPlacement> {
        match self.spec_content() {
            Some(w) => Some(
                ContentPlacement {
                    widget: w,
                    rect: spec_content_rect(self.spec_geometry()),
                    visible: self.spec_visible(),
                },
            ),
            None => None,
        }
    }

    /// A docked (not floating) widget with all features, no content and the given title.
    pub fn new(title: &str) -> (r: Self)
        ensures
            r.spec_title() == title@,
            r.spec_features() == DockFeatures::spec_all(),
            !r.spec_floating(),
            r.spec_content() is None,
            r.spec_geometry() == (Rect { x: 0, y: 0, width: 0, height: 0 }),
            r.spec_visible(),
    {
        DockWidget {
            title: str_to_string(title),
            features: DockFeatures::all(),
            floating: false,
            content: None,
            geometry: Rect::new(0, 0, 0, 0),
            visible: true,
        }
    }

    /// The title.
    pub fn title(&self) -> (r: &str)
        ensures
            r@ == self.spec_title(),
    {
        self.title.as_str()
    }

    /// Replaces the title.
    pub fn set_title(&mut self, t: &str)
        ensures
            final(self).spec_title() == t@,
            final(self).spec_features() == old(self).spec_features(),
            final(self).spec_floating() == old(self).spec_floating(),
            final(self).spec_content() == old(self).spec_content(),
            final(self).spec_geometry() == old(self).spec_geometry(),
            final(self).spec_visible() == old(self).spec_visible(),
    {
        self.title = str_to_string(t);
    }

    /// The enabled features.
    pub fn features(&self) -> (r: DockFeatures)
        ensures
            r == self.spec_features(),
    {
        self.features
    }

    /// Replaces the features; a floating widget stays floating.
    pub fn set_features(&mut self, f: DockFeatures)
        ensures
            final(self).spec_features() == f,
            final(self).spec_title() == old(self).spec_title(),
            final(self).spec_floating() == old(self).spec_floating(),
            final(self).spec_content() == old(self).spec_content(),
            final(self).spec_geometry() == old(self).spec_geometry(),
            final(self).spec_visible() == old(self).spec_visible(),
    {
        self.features = f;
    }

    /// Whether the dock widget floats.
    pub fn is_floating(&self) -> (r: bool)
        ensures
            r == self.spec_floating(),
    {
        self.floating
    }

    /// Makes the widget float or dock; floating is refused without the
    /// `FLOATABLE` feature, docking always succeeds.
    pub fn set_floating(&mut self, v: bool)
        ensures
            final(self).spec_floating() == (if v && !old(self).spec_features().spec_contains(
                DockFeatures::spec_floatable(),
            ) {
                old(self).spec_floating()
            } else {
                v
            }),
            final(self).spec_title() == old(self).spec_title(),
            final(self).spec_features() == old(self).spec_features(),
            final(self).spec_content() == old(self).spec_content(),
            final(self).spec_geometry() == old(self).spec_geometry(),
            final(self).spec_visible() == old(self).spec_visible(),
    {
        if !self.features.contains(DockFeatures::floatable()) && v {
            return ;
        }
        self.floating = v;
    }

    /// Installs widget `w` as the content, replacing any previous one, which
    /// is returned so that the caller can detach it, and lays the content
    /// out: the placement returned is what the caller applies to `w`.
    pub fn set_widget(&mut self, w: u64) -> (r: (Option<u64>, ContentPlacement))
        requires
            content_fits(old(self).spec_geometry()),
        ensures
            r.0 == old(self).spec_content(),
            final(self).spec_content() == Some(w),
            final(self).spec_placement() == Some(r.1),
            r.1 == (ContentPlacement {
                widget: w,
                rect: spec_content_rect(old(self).spec_geometry()),
                visible: old(self).spec_visible(),
            }),
            final(self).spec_title() == old(self).spec_title(),
            final(self).spec_features() == old(self).spec_features(),
            final(self).spec_floating() == old(self).spec_floating(),
            final(self).spec_geometry() == old(self).spec_geometry(),
            final(self).spec_visible() == old(self).spec_visible(),
    {
        let old_content = self.content;
        self.content = Some(w);
        let rect = self.content_rect();
        (old_content, ContentPlacement { widget: w, rect, visible: self.visible })
    }

    /// Where the content currently goes ([`DockWidget::spec_placement`]).
    pub fn placement(&self) -> (r: Option<ContentPlacement>)
        requires
            self.spec_content() is Some ==> content_fits(self.spec_geometry()),
        ensures
            r == self.spec_placement(),
    {
        match self.content {
            Some(w) => {
                let rect = self.content_rect();
                Some(ContentPlacement { widget: w, rect, visible: self.visible })
            },
            None => None,
        }
    }

    /// The content widget, if any.
    pub fn widget(&self) -> (r: Option<u64>)
        ensures
            r == self.spec_content(),
    {
        self.content
    }

    /// Forgets the content when widget `id` is removed and was the content.
    pub fn remove_child(&mut self, id: u64)
        ensures
            final(self).spec_content() == (if old(self).spec_content() == Some(id) {
                None
            } else {
                old(self).spec_content()
            }),
            final(self).spec_title() == old(self).spec_title(),
            final(self).spec_features() == old(self).spec_features(),
            final(self).spec_floating() == old(self).spec_floating(),
            final(self).spec_geometry() == old(self).spec_geometry(),
            final(self).spec_visible() == old(self).spec_visible(),
    {
        match self.content {
            Some(c) => {
                if c == id {
                    self.content = None;
                }
            },
            None => {},
        }
    }

    /// The dock widget's geometry.
    pub fn geometry(&self) -> (r: Rect)
        ensures
            r == self.spec_geometry(),
    {
        self.geometry
    }

    /// Moves and resizes the dock widget and lays the content out again:
    /// returns the content's new placement, if there is content.
    pub fn set_geometry(&mut self, r: Rect) -> (p: Option<ContentPlacement>)
        requires
            old(self).spec_content() is Some ==> content_fits(r),
        ensures
            p == final(self).spec_placement(),
            final(self).spec_geometry() == r,
            final(self).spec_title() == old(self).spec_title(),
            final(self).spec_features() == old(self).spec_features(),
            final(self).spec_floating() == old(self).spec_floating(),
            final(self).spec_content() == old(self).spec_content(),
            final(self).spec_visible() == old(self).spec_visible(),
    {
        self.geometry = r;
        self.placement()
    }

    /// Whether the dock widget is shown.
    pub fn is_visible(&self) -> (r: bool)
        ensures
            r == self.spec_visible(),
    {
        self.visible
    }

    /// Shows or hides the dock widget; the content follows: returns the
    /// content's new placement, if there is content.
    pub fn set_visible(&mut self, v: bool) -> (p: Option<ContentPlacement>)
        requires
            old(self).spec_content() is Some ==> content_fits(old(self).spec_geometry()),
        ensures
            p == final(self).spec_placement(),
            final(self).spec_visible() == v,
            final(self).spec_title() == old(self).spec_title(),
            final(self).spec_features() == old(self).spec_features(),
            final(self).spec_floating() == old(self).spec_floating(),
            final(self).spec_content() == old(self).spec_content(),
            final(self).spec_geometry() == old(self).spec_geometry(),
    {
        self.visible = v;
        self.placement()
    }

    /// Where the content widget is placed: below the title bar.
    pub fn content_rect(&self) -> (r: Rect)
        requires
            content_fits(self.spec_geometry()),
        ensures
            r == spec_content_rect(self.spec_geometry()),
    {
        let g = self.geometry;
        let h = if g.height > DOCK_TITLE_HEIGHT {
            g.height - DOCK_TITLE_HEIGHT
        } else {
            0
        };
        Rect::new(g.x, g.y + DOCK_TITLE_HEIGHT, g.width, h)
    }
}

impl Default for DockWidget {
    fn default() -> (r: Self)
        ensures
            r.spec_title() == Seq::<char>::empty(),
            r.spec_features() == DockFeatures::spec_all(),
            !r.spec_floating(),
            r.spec_content() is None,
    {
        DockWidget {
            title: String::new(),
            features: DockFeatures::all(),
            floating: false,
            content: None,
            geometry: Rect::new(0, 0, 0, 0),
            visible: true,
        }
    }
}

} // verus!
