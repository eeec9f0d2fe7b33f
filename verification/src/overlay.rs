//! The input overlay: a single-row modal text-input capture mechanism.
//!
//! An active overlay holds a fixed prefix label, a growable text value
//! and a visual cursor column.  It consumes one logical key event at a
//! time and either keeps editing or finishes with an optional result;
//! it renders itself into the screen buffer at a fixed row.
//!
//! Invariant: the cursor column always equals the summed display width
//! of the characters of the text value, maintained incrementally.

use vstd::prelude::*;
use vstd::string::StrSliceExecFns;
use crate::keyboard::Key;
use crate::uibuf::written;
use crate::uibuf::UIBuffer;
use crate::width::char_width;
use crate::width::lemma_sum_widths_push;
use crate::width::sum_widths;
use crate::width::width_of;

verus! {

/// Relies on `String::push` (std): appends the given character to the
/// end of the string.
pub assume_specification[ String::push ](s: &mut String, ch: char)
    ensures
        final(s)@ == old(s)@.push(ch),
;

/// Relies on `String::pop` (std): removes and returns the last
/// character, or returns `None` and leaves the string untouched when
/// it is empty.
pub assume_specification[ String::pop ](s: &mut String) -> (r: Option<char>)
    ensures
        old(s)@.len() == 0 ==> r is None && final(s)@ == old(s)@,
        old(s)@.len() > 0 ==> r == Some(old(s)@.last()) && final(s)@ == old(s)@.drop_last(),
;

/// What one key event yields: still editing, or finished with the
/// committed text value (`None` when the input was cancelled).
#[derive(PartialEq, Eq, Debug)]
pub enum OverlayEvent {
    Finished(Option<String>),
    Editing,
}

/// The purpose an active overlay was opened for.  The three purposes
/// share identical input behaviour; the host uses the tag only to
/// route the eventual result.
#[derive(Clone, Copy, PartialEq, Eq, Debug)]
pub enum OverlayType {
    Prompt,
    SavePrompt,
    SelectFile,
}

/// An interface for short-lived user interaction: a prompt, a save
/// dialog or a file selection, or nothing at all.
pub enum Overlay {
    Prompt { cursor_x: usize, data: String, prefix: &'static str },
    SavePrompt { cursor_x: usize, data: String, prefix: &'static str },
    SelectFile { cursor_x: usize, data: String, prefix: &'static str },
    Inactive,
}

impl Overlay {
    /// Whether the overlay is in one of its three active states.
    pub open spec fn spec_active(self) -> bool {
        !(self is Inactive)
    }

    /// The purpose of an active overlay.
    pub open spec fn spec_kind(self) -> Option<OverlayType> {
        match self {
            Overlay::Prompt { .. } => Some(OverlayType::Prompt),
            Overlay::SavePrompt { .. } => Some(OverlayType::SavePrompt),
            Overlay::SelectFile { .. } => Some(OverlayType::SelectFile),
            Overlay::Inactive => None,
        }
    }

    /// The visual cursor column of an active overlay.
    pub open spec fn spec_cursor(self) -> nat {
        match self {
            Overlay::Prompt { cursor_x, .. } => cursor_x as nat,
            Overlay::SavePrompt { cursor_x, .. } => cursor_x as nat,
            Overlay::SelectFile { cursor_x, .. } => cursor_x as nat,
            Overlay::Inactive => 0,
        }
    }

    /// The characters of the text value of an active overlay.
    pub open spec fn spec_data(self) -> Seq<char> {
        match self {
            Overlay::Prompt { data, .. } => data@,
            Overlay::SavePrompt { data, .. } => data@,
            Overlay::SelectFile { data, .. } => data@,
            Overlay::Inactive => Seq::<char>::empty(),
        }
    }

    /// The characters of the prefix label of an active overlay.
    pub open spec fn spec_prefix(self) -> Seq<char> {
        match self {
            Overlay::Prompt { prefix, .. } => prefix@,
            Overlay::SavePrompt { prefix, .. } => prefix@,
            Overlay::SelectFile { prefix, .. } => prefix@,
            Overlay::Inactive => Seq::<char>::empty(),
        }
    }

    /// The overlay invariant: in an active state the cursor column is
    /// exactly the sum of the display widths of the text value's
    /// characters, and so can never go negative.
    pub open spec fn wf(self) -> bool {
        self.spec_active() ==> self.spec_cursor() == sum_widths(self.spec_data())
    }

    /// A fresh active overlay for the given purpose: the given prefix
    /// label, an empty text value, and the cursor at column zero.
    pub fn new(purpose: OverlayType, prefix: &'static str) -> (o: Overlay)
        ensures
            o.wf(),
            o.spec_active(),
            o.spec_kind() == Some(purpose),
            o.spec_data() == Seq::<char>::empty(),
            o.spec_cursor() == 0,
            o.spec_prefix() == prefix@,
    {
        match purpose {
            OverlayType::Prompt => Overlay::Prompt {
                cursor_x: 0,
                data: String::new(),
                prefix: prefix,
            },
            OverlayType::SavePrompt => Overlay::SavePrompt {
                cursor_x: 0,
                data: String::new(),
                prefix: prefix,
            },
            OverlayType::SelectFile => Overlay::SelectFile {
                cursor_x: 0,
                data: String::new(),
                prefix: prefix,
            },
        }
    }

    /// Whether the overlay is in one of its three active states.
    pub fn is_active(&self) -> (r: bool)
        ensures
            r == self.spec_active(),
    {
        match self {
            Overlay::Inactive => false,
            _ => true,
        }
    }

    /// Consume one logical key event.
    ///
    /// From an inactive overlay this is a no-op that keeps "editing".
    /// From an active state: `Esc` cancels (the text value is
    /// discarded, the overlay becomes inactive), `Enter` commits the
    /// accumulated text value and the overlay becomes inactive,
    /// `Backspace` removes the last character (a no-op on an empty
    /// value) and moves the cursor back by that character's display
    /// width, a printable character is appended and moves the cursor
    /// forward by its display width (an unmeasurable character is
    /// appended without moving the cursor), and every other key
    /// changes nothing.
    pub fn handle_key_event(&mut self, key: Key) -> (r: OverlayEvent)
        requires
            old(self).wf(),
        ensures
            final(self).wf(),
            !old(self).spec_active() ==> *final(self) == *old(self) && r == OverlayEvent::Editing,
            old(self).spec_active() && key == Key::Esc ==> *final(self) is Inactive && r
                == OverlayEvent::Finished(Option::<String>::None),
            old(self).spec_active() && key == Key::Enter ==> *final(self) is Inactive && (
            r matches OverlayEvent::Finished(Some(v)) && v@ == old(self).spec_data()),
            old(self).spec_active() && key == Key::Backspace ==> r == OverlayEvent::Editing
                && final(self).spec_kind() == old(self).spec_kind() && final(self).spec_prefix()
                == old(self).spec_prefix() && (if old(self).spec_data().len() == 0 {
                final(self).spec_data() == old(self).spec_data() && final(self).spec_cursor()
                    == old(self).spec_cursor()
            } else {
                final(self).spec_data() == old(self).spec_data().drop_last() && final(self).spec_cursor() == old(self).spec_cursor() - width_of(
                    old(self).spec_data().last(),
                )
            }),
            old(self).spec_active() ==> (key matches Key::Char(c) ==> r == OverlayEvent::Editing
                && final(self).spec_kind() == old(self).spec_kind() && final(self).spec_prefix()
                == old(self).spec_prefix() && (if old(self).spec_cursor() + width_of(c)
                <= usize::MAX {
                final(self).spec_data() == old(self).spec_data().push(c) && final(self).spec_cursor() == old(self).spec_cursor() + width_of(c)
            } else {
                *final(self) == *old(self)
            })),
            old(self).spec_active() && key != Key::Esc && key != Key::Enter && key
                != Key::Backspace && !(key matches Key::Char(_)) ==> *final(self) == *old(self) && r
                == OverlayEvent::Editing,
    {
        match self {
            Overlay::Prompt { cursor_x, data, .. } => {
                match Overlay::active_step(cursor_x, data, key) {
                    Some(v) => {
                        *self = Overlay::Inactive;
                        OverlayEvent::Finished(v)
                    },
                    None => OverlayEvent::Editing,
                }
            },
            Overlay::SavePrompt { cursor_x, data, .. } => {
                match Overlay::active_step(cursor_x, data, key) {
                    Some(v) => {
                        *self = Overlay::Inactive;
                        OverlayEvent::Finished(v)
                    },
                    None => OverlayEvent::Editing,
                }
            },
            Overlay::SelectFile { cursor_x, data, .. } => {
                match Overlay::active_step(cursor_x, data, key) {
                    Some(v) => {
                        *self = Overlay::Inactive;
                        OverlayEvent::Finished(v)
                    },
                    None => OverlayEvent::Editing,
                }
            },
            Overlay::Inactive => OverlayEvent::Editing,
        }
    }

    /// One key event applied to the text value and cursor column of an
    /// active overlay.  Returns `None` while still editing, and
    /// `Some(result)` when the input finished: `Some(None)` cancelled,
    /// `Some(Some(value))` committed.
    fn active_step(cursor_x: &mut usize, data: &mut String, key: Key) -> (fin: Option<
        Option<String>,
    >)
        requires
            *old(cursor_x) == sum_widths(old(data)@),
        ensures
            *final(cursor_x) == sum_widths(final(data)@),
            key == Key::Esc ==> fin == Some(Option::<String>::None),
            key == Key::Enter ==> (fin matches Some(Some(v)) && v@ == old(data)@),
            key == Key::Backspace ==> fin is None && (if old(data)@.len() == 0 {
                final(data)@ == old(data)@ && *final(cursor_x) == *old(cursor_x)
            } else {
                final(data)@ == old(data)@.drop_last() && *final(cursor_x) == *old(cursor_x)
                    - width_of(old(data)@.last())
            }),
            key matches Key::Char(c) ==> fin is None && (if *old(cursor_x) + width_of(c)
                <= usize::MAX {
                final(data)@ == old(data)@.push(c) && *final(cursor_x) == *old(cursor_x)
                    + width_of(c)
            } else {
                *final(data) == *old(data) && *final(cursor_x) == *old(cursor_x)
            }),
            key != Key::Esc && key != Key::Enter && key != Key::Backspace && !(key matches Key::Char(
                _,
            )) ==> fin is None && *final(data) == *old(data) && *final(cursor_x) == *old(cursor_x),
    {
        match key {
            Key::Esc => Some(None),
            Key::Enter => {
                let value = data.clone();
                Some(Some(value))
            },
            Key::Backspace => {
                let popped = data.pop();
                match popped {
                    Some(c) => {
                        match char_width(c) {
                            Some(w) => {
                                *cursor_x = *cursor_x - w;
                            },
                            None => {},
                        }
                    },
                    None => {},
                }
                None
            },
            Key::Char(c) => {
                match char_width(c) {
                    Some(w) => {
                        if w <= usize::MAX - *cursor_x {
                            data.push(c);
                            *cursor_x = *cursor_x + w;
                            proof {
                                lemma_sum_widths_push(old(data)@, c);
                            }
                        }
                    },
                    None => {
                        data.push(c);
                        proof {
                            lemma_sum_widths_push(old(data)@, c);
                        }
                    },
                }
                None
            },
            _ => None,
        }
    }

    /// The visual cursor position of an active overlay: its cursor
    /// column, on the fixed row the overlay is pinned to.  An inactive
    /// overlay reports no position, so the host leaves the document's
    /// own cursor visible.
    pub fn get_cursor_pos(&mut self, height: usize) -> (r: Option<(isize, isize)>)
        requires
            old(self).spec_active() ==> old(self).spec_cursor() as int <= isize::MAX as int,
            height as int <= isize::MAX as int,
        ensures
            *final(self) == *old(self),
            !old(self).spec_active() ==> r is None,
            old(self).spec_active() ==> (r matches Some(p) && p.0 as int == old(self).spec_cursor() as int && p.1 as int == height as int),
    {
        match self {
            Overlay::Prompt { cursor_x, .. } => Some((*cursor_x as isize, height as isize)),
            Overlay::SavePrompt { cursor_x, .. } => Some((*cursor_x as isize, height as isize)),
            Overlay::SelectFile { cursor_x, .. } => Some((*cursor_x as isize, height as isize)),
            Overlay::Inactive => None,
        }
    }

    /// Render an active overlay into the screen buffer on row `height`:
    /// the prefix label from column 0, then the text value from the
    /// column right after the prefix (character-count indexing).  Cells
    /// outside the grid are silently skipped; no other cell of the
    /// buffer is touched.  An inactive overlay draws nothing.
    pub fn draw(&self, uibuf: &mut UIBuffer, height: usize)
        requires
            old(uibuf).wf(),
        ensures
            final(uibuf).wf(),
            final(uibuf).spec_width() == old(uibuf).spec_width(),
            final(uibuf).spec_height() == old(uibuf).spec_height(),
            !self.spec_active() ==> *final(uibuf) == *old(uibuf),
            self.spec_active() ==> ({
                let plen = self.spec_prefix().len() as int;
                let dlen = self.spec_data().len() as int;
                let row = height as int;
                &&& forall|col: int|
                    0 <= col < plen && old(uibuf).in_bounds(col, row)
                        ==> #[trigger] final(uibuf).spec_cell(col, row) == written(
                        old(uibuf).spec_cell(col, row),
                        self.spec_prefix()[col],
                    )
                &&& forall|col: int|
                    plen <= col < plen + dlen && old(uibuf).in_bounds(col, row)
                        ==> #[trigger] final(uibuf).spec_cell(col, row) == written(
                        old(uibuf).spec_cell(col, row),
                        self.spec_data()[col - plen],
                    )
                &&& forall|cx: int, cy: int|
                    old(uibuf).in_bounds(cx, cy) && (cy != row || cx >= plen + dlen)
                        ==> #[trigger] final(uibuf).spec_cell(cx, cy) == old(uibuf).spec_cell(
                        cx,
                        cy,
                    )
            }),
    {
        match self {
            Overlay::Prompt { data, prefix, .. } => {
                draw_active(prefix, data, uibuf, height);
            },
            Overlay::SavePrompt { data, prefix, .. } => {
                draw_active(prefix, data, uibuf, height);
            },
            Overlay::SelectFile { data, prefix, .. } => {
                draw_active(prefix, data, uibuf, height);
            },
            Overlay::Inactive => {},
        }
    }
}


/// Render a prefix and a text value into `uibuf` on row `height`: the
/// prefix from column 0, the text value from the column right after
/// the prefix, one character per column.  Writes that fall outside the
/// grid are skipped; every cell not written keeps its value.
fn draw_active(prefix: &str, data: &String, uibuf: &mut UIBuffer, height: usize)
    requires
        old(uibuf).wf(),
    ensures
        final(uibuf).wf(),
        final(uibuf).spec_width() == old(uibuf).spec_width(),
        final(uibuf).spec_height() == old(uibuf).spec_height(),
        forall|col: int|
            0 <= col < prefix@.len() && old(uibuf).in_bounds(col, height as int)
                ==> #[trigger] final(uibuf).spec_cell(col, height as int) == written(
                old(uibuf).spec_cell(col, height as int),
                prefix@[col],
            ),
        forall|col: int|
            prefix@.len() <= col < prefix@.len() + data@.len() && old(uibuf).in_bounds(
                col,
                height as int,
            ) ==> #[trigger] final(uibuf).spec_cell(col, height as int) == written(
                old(uibuf).spec_cell(col, height as int),
                data@[col - prefix@.len()],
            ),
        forall|cx: int, cy: int|
            old(uibuf).in_bounds(cx, cy) && (cy != height as int || cx >= prefix@.len()
                + data@.len()) ==> #[trigger] final(uibuf).spec_cell(cx, cy) == old(
                uibuf,
            ).spec_cell(cx, cy),
{
    let ghost buf0 = *uibuf;
    let ghost row = height as int;
    let plen = prefix.unicode_len();
    let mut i: usize = 0;
    while i < plen
        invariant
            uibuf.wf(),
            uibuf.spec_width() == buf0.spec_width(),
            uibuf.spec_height() == buf0.spec_height(),
            i <= plen,
            plen == prefix@.len(),
            row == height as int,
            forall|col: int|
                0 <= col < i && buf0.in_bounds(col, row) ==> #[trigger] uibuf.spec_cell(col, row)
                    == written(buf0.spec_cell(col, row), prefix@[col]),
            forall|cx: int, cy: int|
                buf0.in_bounds(cx, cy) && (cy != row || cx >= i) ==> #[trigger] uibuf.spec_cell(
                    cx,
                    cy,
                ) == buf0.spec_cell(cx, cy),
        decreases plen - i,
    {
        let ch = prefix.get_char(i);
        let ghost prev = *uibuf;
        uibuf.update_cell_content(i, height, ch);
        proof {
            assert forall|col: int|
                0 <= col < i + 1 && buf0.in_bounds(col, row) implies #[trigger] uibuf.spec_cell(
                col,
                row,
            ) == written(buf0.spec_cell(col, row), prefix@[col]) by {
                if col < i {
                    assert(uibuf.spec_cell(col, row) == prev.spec_cell(col, row));
                }
            }
            assert forall|cx: int, cy: int|
                buf0.in_bounds(cx, cy) && (cy != row || cx >= i + 1) implies #[trigger] uibuf.spec_cell(
                cx,
                cy,
            ) == prev.spec_cell(cx, cy) by {}
        }
        i = i + 1;
    }
    let dlen = data.as_str().unicode_len();
    let mut k: usize = 0;
    while k < dlen
        invariant
            uibuf.wf(),
            uibuf.spec_width() == buf0.spec_width(),
            uibuf.spec_height() == buf0.spec_height(),
            k <= dlen,
            plen == prefix@.len(),
            dlen == data@.len(),
            row == height as int,
            forall|col: int|
                0 <= col < plen && buf0.in_bounds(col, row) ==> #[trigger] uibuf.spec_cell(
                    col,
                    row,
                ) == written(buf0.spec_cell(col, row), prefix@[col]),
            forall|col: int|
                plen <= col < plen + k && buf0.in_bounds(col, row) ==> #[trigger] uibuf.spec_cell(
                    col,
                    row,
                ) == written(buf0.spec_cell(col, row), data@[col - plen]),
            forall|cx: int, cy: int|
                buf0.in_bounds(cx, cy) && (cy != row || cx >= plen + k)
                    ==> #[trigger] uibuf.spec_cell(cx, cy) == buf0.spec_cell(cx, cy),
        decreases dlen - k,
    {
        let ch = data.as_str().get_char(k);
        let ghost prev = *uibuf;
        if k <= usize::MAX - plen {
            let col = plen + k;
            uibuf.update_cell_content(col, height, ch);
        } else {
            proof {
                uibuf.lemma_dims_bounded();
            }
        }
        proof {
            assert forall|col: int|
                plen <= col < plen + (k + 1) && buf0.in_bounds(col, row)
                    implies #[trigger] uibuf.spec_cell(col, row) == written(
                    buf0.spec_cell(col, row),
                    data@[col - plen],
                ) by {
                if col < plen + k {
                    assert(uibuf.spec_cell(col, row) == prev.spec_cell(col, row));
                }
            }
            assert forall|cx: int, cy: int|
                buf0.in_bounds(cx, cy) && (cy != row || cx >= plen + (k + 1))
                    implies #[trigger] uibuf.spec_cell(cx, cy) == prev.spec_cell(cx, cy) by {}
        }
        k = k + 1;
    }
}

} // verus!

