//! A tray item: what it shows, what a click runs, the process it belongs to,
//! and its elapsed-time display.
//!
//! Times are readings of a monotonic clock in nanoseconds, handed in by the
//! caller (`now`).
use crate::icon::{check_view, contents_view, icon_check, resolve_icon};
use crate::protocol::{opt_view, Request};
use crate::text::{duration_text, format_duration};
use vstd::prelude::*;

verus! {

/// The state of one tray item.
#[derive(Debug)]
pub struct Item {
    pub id: String,
    pub icon: String,
    pub tooltip: String,
    pub description: String,
    pub on_click: String,
    pub pid: Option<i32>,
    pub show_duration: bool,
    pub started_at: Option<u64>,
}

/// The value of an [`Item`], with its texts as characters.
pub struct ItemView {
    pub id: Seq<char>,
    pub icon: Seq<char>,
    pub tooltip: Seq<char>,
    pub description: Seq<char>,
    pub on_click: Seq<char>,
    pub pid: Option<i32>,
    pub show_duration: bool,
    pub started_at: Option<u64>,
}

impl View for Item {
    type V = ItemView;

    open spec fn view(&self) -> ItemView {
        ItemView {
            id: self.id@,
            icon: self.icon@,
            tooltip: self.tooltip@,
            description: self.description@,
            on_click: self.on_click@,
            pid: self.pid,
            show_duration: self.show_duration,
            started_at: self.started_at,
        }
    }
}

/// A fresh item: no description, no process, no timer.
pub open spec fn fresh_item(id: Seq<char>, icon: Seq<char>, tooltip: Seq<char>, on_click: Seq<char>) -> ItemView {
    ItemView {
        id,
        icon,
        tooltip,
        description: Seq::empty(),
        on_click,
        pid: None,
        show_duration: false,
        started_at: None,
    }
}

/// The check that a request's icon gets before an update: none without an icon.
pub open spec fn request_icon_check(req: Request, exists: bool, contents: Result<Seq<u8>, Seq<char>>) -> Result<(), Seq<char>> {
    match req.icon {
        Some(icon) => icon_check(icon@, exists, contents),
        None => Ok(()),
    }
}

/// The item after the fields a request carries are applied at time `now`; a
/// timer that is turned on starts at `now` unless it had started before.
pub open spec fn updated_item(it: ItemView, req: Request, now: u64) -> ItemView {
    let show = match req.show_duration {
        Some(b) => b,
        None => it.show_duration,
    };
    let started = match req.show_duration {
        Some(b) => if b && it.started_at is None { Some(now) } else { it.started_at },
        None => it.started_at,
    };
    ItemView {
        id: it.id,
        icon: match req.icon { Some(s) => s@, None => it.icon },
        tooltip: match req.tooltip { Some(s) => s@, None => it.tooltip },
        description: it.description,
        on_click: match req.on_click { Some(s) => s@, None => it.on_click },
        pid: match req.pid { Some(p) => Some(p), None => it.pid },
        show_duration: show,
        started_at: started,
    }
}

/// Whole seconds from `start` to `now` (nanoseconds), zero when `now` is earlier.
pub open spec fn elapsed_secs(start: u64, now: u64) -> nat {
    if now >= start {
        ((now - start) / 1_000_000_000) as nat
    } else {
        0
    }
}

/// One tick of the elapsed-time display: the new item and whether the change is
/// to be announced to the tray host.
pub open spec fn ticked_item(it: ItemView, now: u64) -> (ItemView, bool) {
    if !it.show_duration {
        (it, false)
    } else {
        match it.started_at {
            None => (ItemView { started_at: Some(now), ..it }, false),
            Some(start) => (ItemView { description: duration_text(elapsed_secs(start, now)), ..it }, true),
        }
    }
}

/// The hover title: the tooltip, or the id when the tooltip is empty.
pub open spec fn title_of(it: ItemView) -> Seq<char> {
    if it.tooltip.len() == 0 {
        it.id
    } else {
        it.tooltip
    }
}

/// The tooltip's title and the text below it. With a tooltip, the title is the
/// tooltip and the elapsed time (if any) stands below it; without one, the
/// elapsed time becomes the title, and the id stands in when there is none.
pub open spec fn tool_tip_text(it: ItemView) -> (Seq<char>, Seq<char>) {
    if it.tooltip.len() == 0 && it.description.len() > 0 {
        (it.description, Seq::empty())
    } else {
        (title_of(it), it.description)
    }
}

impl Item {
    /// A new item with the given texts, once its icon passes the check of
    /// [`resolve_icon`] (`icon_exists` and `icon_contents` are what the disk holds
    /// for `icon_str`); the check's error otherwise.
    pub fn new(
        id: String,
        icon_str: &str,
        tooltip: &str,
        on_click: &str,
        icon_exists: bool,
        icon_contents: Result<Vec<u8>, String>,
    ) -> (r: Result<Self, String>)
        ensures
            match icon_check(icon_str@, icon_exists, contents_view(icon_contents)) {
                Ok(()) => r matches Ok(item) && item@ == fresh_item(id@, icon_str@, tooltip@, on_click@),
                Err(e) => r matches Err(msg) && msg@ == e,
            },
    {
        match resolve_icon(icon_str, icon_exists, icon_contents) {
            Err(e) => Err(e),
            Ok(()) => Ok(
                Item {
                    id,
                    icon: String::from_str(icon_str),
                    tooltip: String::from_str(tooltip),
                    description: String::new(),
                    on_click: String::from_str(on_click),
                    pid: None,
                    show_duration: false,
                    started_at: None,
                },
            ),
        }
    }

    /// Applies the fields that `req` carries. A new icon must pass the check of
    /// [`resolve_icon`] first (`icon_exists` and `icon_contents` are what the disk
    /// holds for it); if it does not, the item is left as it was and the check's
    /// error is returned. `now` starts a timer that is turned on.
    pub fn update(
        &mut self,
        req: &Request,
        icon_exists: bool,
        icon_contents: Result<Vec<u8>, String>,
        now: u64,
    ) -> (r: Result<(), String>)
        ensures
            match request_icon_check(*req, icon_exists, contents_view(icon_contents)) {
                Ok(()) => r is Ok && final(self)@ == updated_item(old(self)@, *req, now),
                Err(e) => r matches Err(msg) && msg@ == e && final(self)@ == old(self)@,
            },
    {
        match &req.icon {
            Some(icon_str) => {
                match resolve_icon(icon_str.as_str(), icon_exists, icon_contents) {
                    Err(e) => return Err(e),
                    Ok(()) => {
                        self.icon = icon_str.clone();
                    },
                }
            },
            None => {},
        }
        match &req.tooltip {
            Some(t) => {
                self.tooltip = t.clone();
            },
            None => {},
        }
        match &req.on_click {
            Some(c) => {
                self.on_click = c.clone();
            },
            None => {},
        }
        match req.pid {
            Some(p) => {
                self.pid = Some(p);
            },
            None => {},
        }
        match req.show_duration {
            Some(show) => {
                self.show_duration = show;
                if show && self.started_at.is_none() {
                    self.started_at = Some(now);
                }
            },
            None => {},
        }
        Ok(())
    }

    /// Sets the text shown below the title.
    pub fn set_duration_text(&mut self, duration: String)
        ensures
            final(self)@ == (ItemView { description: duration@, ..old(self)@ }),
    {
        self.description = duration;
    }

    /// One tick of the elapsed-time display at time `now`: an item without a timer
    /// is left alone; a timer with no start starts now; otherwise the description
    /// becomes the elapsed time as `HH:MM:SS`. Returns whether the tray host is to
    /// be told that the tooltip changed.
    pub fn tick(&mut self, now: u64) -> (changed: bool)
        ensures
            (final(self)@, changed) == ticked_item(old(self)@, now),
    {
        if !self.show_duration {
            return false;
        }
        match self.started_at {
            None => {
                self.started_at = Some(now);
                false
            },
            Some(start) => {
                let secs = if now >= start {
                    (now - start) / 1_000_000_000
                } else {
                    0
                };
                self.set_duration_text(format_duration(secs));
                true
            },
        }
    }

    /// The shell command a click runs, if the item has one.
    pub fn click_command(&self) -> (r: Option<String>)
        ensures
            self@.on_click.len() == 0 ==> r is None,
            self@.on_click.len() > 0 ==> (r matches Some(c) && c@ == self@.on_click),
    {
        if self.on_click.as_str().unicode_len() == 0 {
            None
        } else {
            Some(self.on_click.clone())
        }
    }

    /// The hover title: the tooltip, or the id when the tooltip is empty.
    pub fn title(&self) -> (r: String)
        ensures
            r@ == title_of(self@),
    {
        if self.tooltip.as_str().unicode_len() == 0 {
            self.id.clone()
        } else {
            self.tooltip.clone()
        }
    }

    /// The tooltip a tray host is given: no icon name, no pixmaps, then the title
    /// and the text below it (see [`tool_tip_text`]).
    pub fn tool_tip(&self) -> (r: (String, Vec<(i32, i32, Vec<u8>)>, String, String))
        ensures
            r.0@ == Seq::<char>::empty(),
            r.1@.len() == 0,
            (r.2@, r.3@) == tool_tip_text(self@),
            self@.tooltip.len() > 0 ==> r.2@ == self@.tooltip && r.3@ == self@.description,
            self@.tooltip.len() == 0 && self@.description.len() > 0 ==> r.2@ == self@.description && r.3@.len() == 0,
            self@.tooltip.len() == 0 && self@.description.len() == 0 ==> r.2@ == self@.id && r.3@.len() == 0,
    {
        proof {
            lemma_tool_tip_shows_tooltip(self@);
        }
        if self.tooltip.as_str().unicode_len() == 0 && self.description.as_str().unicode_len() > 0 {
            (String::new(), Vec::new(), self.description.clone(), String::new())
        } else {
            (String::new(), Vec::new(), self.title(), self.description.clone())
        }
    }
}

impl Clone for Item {
    fn clone(&self) -> (r: Self)
        ensures
            r@ == self@,
    {
        Item {
            id: self.id.clone(),
            icon: self.icon.clone(),
            tooltip: self.tooltip.clone(),
            description: self.description.clone(),
            on_click: self.on_click.clone(),
            pid: self.pid,
            show_duration: self.show_duration,
            started_at: self.started_at,
        }
    }
}

/// What the tray host shows on hover: an item with a tooltip shows it as the
/// title, with the elapsed time (if any) below it; without a tooltip the elapsed
/// time is the title, and with neither the id is, with nothing below.
pub proof fn lemma_tool_tip_shows_tooltip(it: ItemView)
    ensures
        it.tooltip.len() > 0 ==> tool_tip_text(it).0 == it.tooltip && tool_tip_text(it).1 == it.description,
        it.tooltip.len() == 0 && it.description.len() > 0 ==> tool_tip_text(it).0 == it.description && tool_tip_text(it).1.len() == 0,
        it.tooltip.len() == 0 && it.description.len() == 0 ==> tool_tip_text(it).0 == it.id && tool_tip_text(it).1.len() == 0,
{
}

/// Applying the same request twice is the same as applying it once, at any
/// later time.
pub proof fn lemma_update_idempotent(it: ItemView, req: Request, now1: u64, now2: u64)
    ensures
        updated_item(updated_item(it, req, now1), req, now2) == updated_item(it, req, now1),
{
}

/// A request that carries no field leaves the item as it is.
pub proof fn lemma_update_empty_request(it: ItemView, req: Request, now: u64)
    requires
        req.icon is None,
        req.tooltip is None,
        req.on_click is None,
        req.pid is None,
        req.show_duration is None,
    ensures
        updated_item(it, req, now) == it,
{
}

} // verus!
