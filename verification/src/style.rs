//! The per-widget glyph style of the config: a global charset, border style
//! and widget pack, each overridable per widget name. The charset and border
//! kinds come from the widget API and are kept generic here.

use vstd::prelude::*;
use crate::text::str_eq;

verus! {

/// The style overrides of one widget.
pub struct WidgetStyle<C, B> {
    pub charset: Option<C>,
    pub borders: Option<B>,
    /// Widget pack to render this widget with.
    pub pack: Option<String>,
}

/// The global widget style, with per-widget overrides keyed by widget name
/// (a name has at most one entry).
pub struct UiStyle<C, B> {
    pub charset: C,
    pub borders: B,
    pub widgets: Vec<(String, WidgetStyle<C, B>)>,
    /// Widget pack used for every name without a per-widget override.
    pub pack: Option<String>,
}

/// The overrides of the widget called `name`, if it has an entry.
pub open spec fn style_of<C, B>(widgets: Seq<(String, WidgetStyle<C, B>)>, name: Seq<char>) -> Option<
    WidgetStyle<C, B>,
>
    decreases widgets.len(),
{
    if widgets.len() == 0 {
        None
    } else if widgets[0].0@ == name {
        Some(widgets[0].1)
    } else {
        style_of(widgets.drop_first(), name)
    }
}

impl<C: Copy, B: Copy> UiStyle<C, B> {
    /// The position of the entry of the widget called `name`.
    fn entry_of(&self, name: &str) -> (r: Option<usize>)
        ensures
            match r {
                Some(i) => i < self.widgets@.len() && style_of(self.widgets@, name@) == Some(self.widgets@[i as int].1),
                None => style_of(self.widgets@, name@) is None,
            },
    {
        let ghost w = self.widgets@;
        let mut i: usize = 0;
        proof {
            assert(w.skip(0) =~= w);
        }
        while i < self.widgets.len()
            invariant
                w == self.widgets@,
                i <= w.len(),
                style_of(w, name@) == style_of(w.skip(i as int), name@),
            decreases w.len() - i,
        {
            proof {
                assert(w.skip(i as int).drop_first() =~= w.skip(i + 1));
                assert(w.skip(i as int)[0] == w[i as int]);
            }
            if str_eq(self.widgets[i].0.as_str(), name) {
                return Some(i);
            }
            i += 1;
        }
        proof {
            assert(w.skip(i as int).len() == 0);
        }
        None
    }

    /// The charset of a widget: its own override, else the global one.
    pub fn charset_for(&self, widget: &str) -> (r: C)
        ensures
            r == match style_of(self.widgets@, widget@) {
                Some(s) => match s.charset {
                    Some(c) => c,
                    None => self.charset,
                },
                None => self.charset,
            },
    {
        match self.entry_of(widget) {
            Some(i) => match self.widgets[i].1.charset {
                Some(c) => c,
                None => self.charset,
            },
            None => self.charset,
        }
    }

    /// The border style of a widget: its own override, else the global one.
    pub fn borders_for(&self, widget: &str) -> (r: B)
        ensures
            r == match style_of(self.widgets@, widget@) {
                Some(s) => match s.borders {
                    Some(b) => b,
                    None => self.borders,
                },
                None => self.borders,
            },
    {
        match self.entry_of(widget) {
            Some(i) => match self.widgets[i].1.borders {
                Some(b) => b,
                None => self.borders,
            },
            None => self.borders,
        }
    }

    /// The widget pack of a widget: its own override, else the global one
    /// (none when neither is set).
    pub fn pack_for(&self, widget: &str) -> (r: Option<&str>)
        ensures
            match r {
                Some(p) => match style_of(self.widgets@, widget@) {
                    Some(s) => match s.pack {
                        Some(q) => p@ == q@,
                        None => self.pack matches Some(g) && p@ == g@,
                    },
                    None => self.pack matches Some(g) && p@ == g@,
                },
                None => match style_of(self.widgets@, widget@) {
                    Some(s) => s.pack is None && self.pack is None,
                    None => self.pack is None,
                },
            },
    {
        let own = match self.entry_of(widget) {
            Some(i) => match &self.widgets[i].1.pack {
                Some(p) => Some(p.as_str()),
                None => None,
            },
            None => None,
        };
        match own {
            Some(p) => Some(p),
            None => match &self.pack {
                Some(g) => Some(g.as_str()),
                None => None,
            },
        }
    }
}

} // verus!
