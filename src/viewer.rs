//! The artifact viewer: rendered markdown lines for the current width and a
//! scroll position over them.
use vstd::prelude::*;
use crate::keys::{Key, MouseKind};
use crate::layout::{lines_view, DisplayLine, LineView};
use crate::markdown::{decode_entities, entities_decoded_of, layout_of, markdown_events_of, parse_markdown_to_lines};

verus! {

pub struct Viewer {
    pub content: String,
    pub title: String,
    pub scroll: usize,
    /// Lines laid out for `last_known_width`.
    pub wrapped_lines: Vec<DisplayLine>,
    pub last_known_width: u16,
}

/// Rows of text inside a bordered area of `height` rows (at least one).
pub open spec fn page_size(height: u16) -> usize {
    if height > 2 {
        (height - 2) as usize
    } else {
        1
    }
}

/// The last scroll position that still fills a page.
pub open spec fn max_scroll(lines: usize, page: usize) -> usize {
    if lines > page {
        (lines - page) as usize
    } else {
        0
    }
}

/// Scroll position after a key, for `lines` lines and pages of `page` rows.
pub open spec fn scrolled(scroll: usize, key: Key, lines: usize, page: usize) -> usize {
    let last = max_scroll(lines, page);
    match key {
        Key::Up | Key::Char('k') => if scroll > 0 {
            (scroll - 1) as usize
        } else {
            scroll
        },
        Key::Down | Key::Char('j') => if scroll < last {
            (scroll + 1) as usize
        } else {
            scroll
        },
        Key::PageUp | Key::Char('b') => if scroll > page {
            (scroll - page) as usize
        } else {
            0
        },
        Key::PageDown | Key::Char(' ') => if scroll + page < last {
            (scroll + page) as usize
        } else {
            last
        },
        Key::Home | Key::Char('g') => 0,
        Key::End | Key::Char('G') => last,
        _ => scroll,
    }
}

/// The lines a text is shown as in an area `width` columns wide: HTML
/// entities decoded, markdown laid out inside the borders.
pub open spec fn shown_lines(content: Seq<char>, width: u16) -> Seq<LineView> {
    layout_of(
        markdown_events_of(entities_decoded_of(content)),
        if width > 2 {
            (width - 2) as usize
        } else {
            0
        },
    )
}

impl Viewer {
    pub fn new(content: String, title: String) -> (r: Viewer)
        ensures
            r.content == content,
            r.title == title,
            r.scroll == 0,
            r.wrapped_lines@.len() == 0,
            r.last_known_width == 0,
    {
        Viewer { content, title, scroll: 0, wrapped_lines: Vec::new(), last_known_width: 0 }
    }

    /// Shows other content from the top.
    pub fn set_content(&mut self, content: String, file_path: String)
        ensures
            final(self).content == content,
            final(self).title == file_path,
            final(self).scroll == 0,
            final(self).wrapped_lines@.len() == 0,
            final(self).last_known_width == 0,
    {
        self.content = content;
        self.title = file_path;
        self.scroll = 0;
        self.wrapped_lines = Vec::new();
        self.last_known_width = 0;
    }

    /// Scrolls by a key, in an area `area_height` rows high.
    pub fn handle_key(&mut self, key: Key, area_height: u16)
        ensures
            *final(self) == (Viewer {
                scroll: scrolled(
                    old(self).scroll,
                    key,
                    old(self).wrapped_lines@.len() as usize,
                    page_size(area_height),
                ),
                ..*old(self)
            }),
    {
        let lines = self.wrapped_lines.len();
        let page: usize = if area_height > 2 {
            (area_height - 2) as usize
        } else {
            1
        };
        let last = if lines > page {
            lines - page
        } else {
            0
        };
        match key {
            Key::Up | Key::Char('k') => {
                if self.scroll > 0 {
                    self.scroll = self.scroll - 1;
                }
            },
            Key::Down | Key::Char('j') => {
                if self.scroll < last {
                    self.scroll = self.scroll + 1;
                }
            },
            Key::PageUp | Key::Char('b') => {
                self.scroll = if self.scroll > page {
                    self.scroll - page
                } else {
                    0
                };
            },
            Key::PageDown | Key::Char(' ') => {
                self.scroll = if self.scroll < last && page < last - self.scroll {
                    self.scroll + page
                } else {
                    last
                };
            },
            Key::Home | Key::Char('g') => {
                self.scroll = 0;
            },
            Key::End | Key::Char('G') => {
                self.scroll = last;
            },
            _ => {},
        }
    }

    /// Scrolls by a mouse wheel event, one line at a time.
    pub fn handle_mouse(&mut self, kind: MouseKind, area_height: u16)
        ensures
            *final(self) == (Viewer { scroll: final(self).scroll, ..*old(self) }),
            final(self).scroll == match kind {
                MouseKind::ScrollUp => scrolled(
                    old(self).scroll,
                    Key::Up,
                    old(self).wrapped_lines@.len() as usize,
                    page_size(area_height),
                ),
                MouseKind::ScrollDown => scrolled(
                    old(self).scroll,
                    Key::Down,
                    old(self).wrapped_lines@.len() as usize,
                    page_size(area_height),
                ),
                MouseKind::Other => old(self).scroll,
            },
    {
        match kind {
            MouseKind::ScrollUp => self.handle_key(Key::Up, area_height),
            MouseKind::ScrollDown => self.handle_key(Key::Down, area_height),
            MouseKind::Other => {},
        }
    }

    /// Lays the content out again when the area's width changed (or nothing
    /// is laid out yet), then keeps the scroll position within the lines.
    pub fn ensure_layout(&mut self, width: u16, height: u16)
        ensures
            final(self).content == old(self).content,
            final(self).title == old(self).title,
            (width != old(self).last_known_width || old(self).wrapped_lines@.len() == 0) ==> {
                &&& lines_view(final(self).wrapped_lines@) == shown_lines(old(self).content@, width)
                &&& final(self).last_known_width == width
                &&& final(self).scroll == if old(self).scroll > max_scroll(
                    final(self).wrapped_lines@.len() as usize,
                    if height > 2 {
                        (height - 2) as usize
                    } else {
                        0
                    },
                ) {
                    max_scroll(
                        final(self).wrapped_lines@.len() as usize,
                        if height > 2 {
                            (height - 2) as usize
                        } else {
                            0
                        },
                    )
                } else {
                    old(self).scroll
                }
            },
            !(width != old(self).last_known_width || old(self).wrapped_lines@.len() == 0) ==> {
                &&& final(self).wrapped_lines == old(self).wrapped_lines
                &&& final(self).scroll == old(self).scroll
                &&& final(self).last_known_width == old(self).last_known_width
            },
    {
        if width != self.last_known_width || self.wrapped_lines.len() == 0 {
            let view_width: usize = if width > 2 {
                (width - 2) as usize
            } else {
                0
            };
            let decoded = decode_entities(self.content.as_str());
            self.wrapped_lines = parse_markdown_to_lines(decoded.as_str(), view_width);
            self.last_known_width = width;
            let visible: usize = if height > 2 {
                (height - 2) as usize
            } else {
                0
            };
            let n = self.wrapped_lines.len();
            let max = if n > visible {
                n - visible
            } else {
                0
            };
            if self.scroll > max {
                self.scroll = max;
            }
        }
    }
}

} // verus!
