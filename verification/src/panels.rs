use vstd::prelude::*;

use crate::action::{ColorSchemeKind, ContextPage};
use crate::keys::Modifiers;

verus! {

/// Which side panel and search bar are showing.
pub struct Panels {
    /// The page of the context drawer.
    pub context_page: ContextPage,
    /// Whether the context drawer is shown.
    pub show_context: bool,
    /// Whether the search bar is shown.
    pub find: bool,
    /// The text searched for.
    pub find_search_value: String,
}

impl Panels {
    /// The settings page, hidden, with no search.
    pub fn new() -> (r: Self)
        ensures
            r.context_page == ContextPage::Settings,
            !r.show_context,
            !r.find,
            r.find_search_value@.len() == 0,
    {
        Panels {
            context_page: ContextPage::Settings,
            show_context: false,
            find: false,
            find_search_value: String::new(),
        }
    }

    /// Asks for a context drawer page: the page already shown is hidden, or
    /// shown again when hidden; another page replaces it and is shown.
    /// Returns the kind of color schemes when the color scheme page is
    /// selected, whose list is then to be prepared for that kind.
    pub fn toggle_context_page(&mut self, page: ContextPage) -> (r: Option<ColorSchemeKind>)
        ensures
            (final(self).context_page, final(self).show_context) == after_toggle(
                old(self).context_page,
                old(self).show_context,
                page,
            ),
            final(self).find == old(self).find,
            final(self).find_search_value == old(self).find_search_value,
            r == (match page {
                ContextPage::ColorSchemes(kind) => Some(kind),
                _ => None,
            }),
    {
        if self.context_page == page {
            self.show_context = !self.show_context;
        } else {
            self.context_page = page;
            self.show_context = true;
        }
        match self.context_page {
            ContextPage::ColorSchemes(kind) => Some(kind),
            _ => None,
        }
    }

    /// Switching between the dark and light tab of the color scheme page:
    /// the page for that kind is asked for unless it is already the current
    /// page. Returns the page asked for.
    pub fn color_scheme_tab_activated(&mut self, kind: ColorSchemeKind) -> (r: Option<ContextPage>)
        ensures
            old(self).context_page == ContextPage::ColorSchemes(kind) ==> r is None && *final(self)
                == *old(self),
            old(self).context_page != ContextPage::ColorSchemes(kind) ==> r == Some(
                ContextPage::ColorSchemes(kind),
            ) && final(self).context_page == ContextPage::ColorSchemes(kind)
                && final(self).show_context,
    {
        let page = ContextPage::ColorSchemes(kind);
        if self.context_page != page {
            self.toggle_context_page(page);
            Some(page)
        } else {
            None
        }
    }

    /// Shows or hides the search bar. When shown, the text selected in the
    /// active terminal, if any, becomes the search text; when hidden, the
    /// search text is cleared.
    pub fn set_find(&mut self, find: bool, selection: Option<String>)
        ensures
            final(self).find == find,
            find ==> final(self).find_search_value@ == (match selection {
                Some(t) => t@,
                None => old(self).find_search_value@,
            }),
            !find ==> final(self).find_search_value@.len() == 0,
            final(self).context_page == old(self).context_page,
            final(self).show_context == old(self).show_context,
    {
        self.find = find;
        if find {
            match selection {
                Some(text) => self.find_search_value = text,
                None => {},
            }
        } else {
            self.find_search_value = String::new();
        }
    }

    /// Whether "find next" or "find previous" searches: only when there is a
    /// search text.
    pub fn has_search(&self) -> (r: bool)
        ensures
            r == (self.find_search_value@.len() > 0),
    {
        self.find_search_value.as_str().unicode_len() > 0
    }

    /// Escape closes the context drawer when it is shown, and otherwise the
    /// search bar (clearing the search text).
    pub fn escape(&mut self)
        ensures
            old(self).show_context ==> !final(self).show_context && final(self).find == old(self).find
                && final(self).find_search_value == old(self).find_search_value,
            !old(self).show_context && old(self).find ==> !final(self).find
                && final(self).find_search_value@.len() == 0 && !final(self).show_context,
            !old(self).show_context && !old(self).find ==> *final(self) == *old(self),
            final(self).context_page == old(self).context_page,
    {
        if self.show_context {
            self.show_context = false;
        } else if self.find {
            self.find = false;
            self.find_search_value = String::new();
        }
    }
}

/// Submitting the search searches forward ("find next") when Shift is held
/// and backward otherwise, as terminal users usually search upward.
pub fn search_forward_on_submit(modifiers: Modifiers) -> (r: bool)
    ensures
        r == modifiers.shift,
{
    modifiers.shift
}

/// The drawer page and visibility after asking for a page.
pub open spec fn after_toggle(current: ContextPage, shown: bool, page: ContextPage) -> (ContextPage, bool) {
    if current == page {
        (current, !shown)
    } else {
        (page, true)
    }
}

/// Asking twice for the page the drawer is on leaves the drawer as it was;
/// asking twice for another page switches to it, hidden.
pub proof fn lemma_toggle_twice(current: ContextPage, shown: bool, page: ContextPage)
    ensures
        current == page ==> ({
            let (p1, s1) = after_toggle(current, shown, page);
            after_toggle(p1, s1, page) == (current, shown)
        }),
        current != page ==> ({
            let (p1, s1) = after_toggle(current, shown, page);
            after_toggle(p1, s1, page) == (page, false)
        }),
{
}

} // verus!
