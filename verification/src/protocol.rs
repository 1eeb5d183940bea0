//! The messages exchanged between the `tray` client and its daemon.
use vstd::prelude::*;

verus! {

/// Command name that creates or updates an item.
pub const CMD_SHOW: &'static str = "show";

/// Command name that removes an item.
pub const CMD_HIDE: &'static str = "hide";

/// Command name that lists the items.
pub const CMD_LIST: &'static str = "list";

/// A request sent by the client to the daemon.
#[derive(Debug, Clone, PartialEq, Eq)]
pub struct Request {
    pub cmd: String,
    pub id: Option<String>,
    pub icon: Option<String>,
    pub tooltip: Option<String>,
    pub on_click: Option<String>,
    pub pid: Option<i32>,
    pub show_duration: Option<bool>,
}

/// The daemon's answer to a request.
#[derive(Debug, Clone, PartialEq, Eq)]
pub struct Response {
    pub ok: bool,
    pub error: Option<String>,
    pub items: Option<Vec<ItemInfo>>,
}

/// What `list` reports of one item.
#[derive(Debug, Clone, PartialEq, Eq)]
pub struct ItemInfo {
    pub id: String,
    pub icon: String,
    pub tooltip: String,
    pub pid: Option<i32>,
}

/// The characters of an optional string.
pub open spec fn opt_view(o: Option<String>) -> Option<Seq<char>> {
    match o {
        Some(s) => Some(s@),
        None => None,
    }
}

/// The value of an [`ItemInfo`], with its texts as characters.
pub struct ItemInfoView {
    pub id: Seq<char>,
    pub icon: Seq<char>,
    pub tooltip: Seq<char>,
    pub pid: Option<i32>,
}

impl View for ItemInfo {
    type V = ItemInfoView;

    open spec fn view(&self) -> ItemInfoView {
        ItemInfoView { id: self.id@, icon: self.icon@, tooltip: self.tooltip@, pid: self.pid }
    }
}

/// The value of a [`Response`].
pub struct ResponseView {
    pub ok: bool,
    pub error: Option<Seq<char>>,
    pub items: Option<Seq<ItemInfoView>>,
}

/// The values of a list of item reports.
pub open spec fn infos_view(items: Seq<ItemInfo>) -> Seq<ItemInfoView> {
    items.map_values(|i: ItemInfo| i@)
}

impl View for Response {
    type V = ResponseView;

    open spec fn view(&self) -> ResponseView {
        ResponseView {
            ok: self.ok,
            error: opt_view(self.error),
            items: match self.items {
                Some(v) => Some(infos_view(v@)),
                None => None,
            },
        }
    }
}

/// A successful answer without items.
pub open spec fn ok_view() -> ResponseView {
    ResponseView { ok: true, error: None, items: None }
}

/// A failed answer carrying the message `msg`.
pub open spec fn err_view(msg: Seq<char>) -> ResponseView {
    ResponseView { ok: false, error: Some(msg), items: None }
}

/// A successful answer carrying `items`.
pub open spec fn items_view(items: Seq<ItemInfoView>) -> ResponseView {
    ResponseView { ok: true, error: None, items: Some(items) }
}

/// A request must not be empty: a peer that closed before writing sent nothing.
pub fn check_request_bytes(buf: &[u8]) -> (r: Result<(), String>)
    ensures
        buf@.len() == 0 ==> (r matches Err(e) && e@ == "empty request"@),
        buf@.len() > 0 ==> r is Ok,
{
    if buf.len() == 0 {
        Err(String::from_str("empty request"))
    } else {
        Ok(())
    }
}

impl Response {
    /// A successful answer with no items.
    pub fn ok() -> (r: Self)
        ensures
            r@ == ok_view(),
    {
        Response { ok: true, error: None, items: None }
    }

    /// A failed answer with the message `msg`.
    pub fn err(msg: String) -> (r: Self)
        ensures
            r@ == err_view(msg@),
    {
        Response { ok: false, error: Some(msg), items: None }
    }

    /// A successful answer that carries `items`.
    pub fn with_items(items: Vec<ItemInfo>) -> (r: Self)
        ensures
            r@ == items_view(infos_view(items@)),
    {
        Response { ok: true, error: None, items: Some(items) }
    }
}

} // verus!
