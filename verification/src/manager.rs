//! The daemon's registry of tray items and its answers to requests.
//!
//! Each operation decides, from the registry and the request, the new registry
//! and what the daemon has to do on the session bus (publish, announce or
//! withdraw an item) before it answers. The bus work itself is done by the
//! caller, who hands back its outcome where it matters.
use crate::icon::{contents_view, icon_check};
use crate::item::{fresh_item, request_icon_check, ticked_item, updated_item, Item, ItemView};
use crate::protocol::{
    err_view, infos_view, items_view, ItemInfo, ItemInfoView, Request, Response, ResponseView,
    CMD_HIDE, CMD_LIST, CMD_SHOW,
};
use crate::text::{decimal, lemma_decimal_injective, push_decimal, str_eq, with_debug};
use vstd::prelude::*;

verus! {

/// One registered item and the bus object path it is published at.
#[derive(Debug)]
pub struct Entry {
    pub id: String,
    pub object_path: String,
    pub item: Item,
}

/// The value of an [`Entry`].
pub struct EntryView {
    pub id: Seq<char>,
    pub object_path: Seq<char>,
    pub item: ItemView,
}

impl View for Entry {
    type V = EntryView;

    open spec fn view(&self) -> EntryView {
        EntryView { id: self.id@, object_path: self.object_path@, item: self.item@ }
    }
}

/// The registry of the daemon's items.
#[derive(Debug)]
pub struct Manager {
    entries: Vec<Entry>,
    counter: usize,
}

/// The value of a [`Manager`]: its entries in order, and the number of the next
/// object path it hands out.
pub struct ManagerView {
    pub entries: Seq<EntryView>,
    pub counter: nat,
}

/// The values of a list of entries.
pub open spec fn entries_view(v: Seq<Entry>) -> Seq<EntryView> {
    v.map_values(|e: Entry| e@)
}

impl View for Manager {
    type V = ManagerView;

    closed spec fn view(&self) -> ManagerView {
        ManagerView { entries: entries_view(self.entries@), counter: self.counter as nat }
    }
}

/// What the caller has to do after a request, besides answering.
#[derive(Debug)]
pub enum Step {
    /// Nothing on the bus: answer with this response.
    Reply(Response),
    /// An item was updated: emit `NewToolTip` for the object at `object_path`, then
    /// answer ok (or with the bus error).
    Announce { object_path: String },
    /// An item is to be made at `object_path`: connect to the session bus (answer
    /// with the bus error if that fails); then, if `item` is the icon check's error,
    /// answer with it; otherwise publish the item at `object_path` and, once that
    /// succeeds, hand both to [`Manager::register`] (answer with the bus error if it
    /// fails).
    Register { object_path: String, item: Result<Item, String> },
    /// An item was removed: withdraw the object at `object_path`, shut the daemon
    /// down when `now_empty`, and answer ok.
    Unregister { object_path: String, now_empty: bool },
}

/// The value of a [`Step`].
pub enum StepView {
    Reply(ResponseView),
    Announce(Seq<char>),
    Register(Seq<char>, Result<ItemView, Seq<char>>),
    Unregister(Seq<char>, bool),
}

impl View for Step {
    type V = StepView;

    open spec fn view(&self) -> StepView {
        match self {
            Step::Reply(r) => StepView::Reply(r@),
            Step::Announce { object_path } => StepView::Announce(object_path@),
            Step::Register { object_path, item } => StepView::Register(
                object_path@,
                match item {
                    Ok(it) => Ok(it@),
                    Err(e) => Err(e@),
                },
            ),
            Step::Unregister { object_path, now_empty } => StepView::Unregister(object_path@, *now_empty),
        }
    }
}

/// Whether an entry has the id `id`.
pub open spec fn contains_id(s: Seq<EntryView>, id: Seq<char>) -> bool {
    exists|i: int| 0 <= i < s.len() && #[trigger] s[i].id == id
}

/// The position of the entry with the id `id` (meaningful when there is one).
pub open spec fn index_of(s: Seq<EntryView>, id: Seq<char>) -> int {
    choose|i: int| 0 <= i < s.len() && #[trigger] s[i].id == id
}

/// The entry with the id `id`, if any.
pub open spec fn lookup(s: Seq<EntryView>, id: Seq<char>) -> Option<EntryView> {
    if contains_id(s, id) {
        Some(s[index_of(s, id)])
    } else {
        None
    }
}

/// The registry's invariant: no id occurs twice, and each entry's item has the
/// entry's id.
pub open spec fn registry_wf(s: Seq<EntryView>) -> bool {
    &&& forall|i: int, j: int| 0 <= i < s.len() && 0 <= j < s.len() && i != j ==> #[trigger] s[i].id != #[trigger] s[j].id
    &&& forall|i: int| 0 <= i < s.len() ==> (#[trigger] s[i]).item.id == s[i].id
}

/// The bus object path of the `n`-th item made.
pub open spec fn object_path_of(n: nat) -> Seq<char> {
    "/StatusNotifierItem/_"@ + decimal(n)
}

/// The counter after one more item is numbered (it wraps as a `usize` does).
pub open spec fn next_counter(c: nat) -> nat {
    if c < usize::MAX {
        c + 1
    } else {
        0
    }
}

/// The characters of an optional string, or none.
pub open spec fn or_empty(o: Option<String>) -> Seq<char> {
    match o {
        Some(s) => s@,
        None => Seq::empty(),
    }
}

/// A new item made by `show`: the request's texts, its process, and a timer
/// started at `now` when the request asks for one.
pub open spec fn shown_item(id: Seq<char>, req: Request, now: u64) -> ItemView {
    let base = fresh_item(id, or_empty(req.icon), or_empty(req.tooltip), or_empty(req.on_click));
    let with_pid = ItemView { pid: req.pid, ..base };
    if req.show_duration == Some(true) {
        ItemView { show_duration: true, started_at: Some(now), ..with_pid }
    } else {
        with_pid
    }
}

/// What `show` does: the new registry and the step to take.
pub open spec fn show_outcome(
    m: ManagerView,
    req: Request,
    exists: bool,
    contents: Result<Seq<u8>, Seq<char>>,
    now: u64,
) -> (ManagerView, StepView) {
    match req.id {
        None => (m, StepView::Reply(err_view("id is required"@))),
        Some(id) => if contains_id(m.entries, id@) {
            let i = index_of(m.entries, id@);
            let e = m.entries[i];
            match request_icon_check(req, exists, contents) {
                Err(msg) => (m, StepView::Reply(err_view(msg))),
                Ok(()) => (
                    ManagerView {
                        entries: m.entries.update(i, EntryView { item: updated_item(e.item, req, now), ..e }),
                        ..m
                    },
                    StepView::Announce(e.object_path),
                ),
            }
        } else {
            let m2 = ManagerView { counter: next_counter(m.counter), ..m };
            let made = match icon_check(or_empty(req.icon), exists, contents) {
                Err(msg) => Err(msg),
                Ok(()) => Ok(shown_item(id@, req, now)),
            };
            (m2, StepView::Register(object_path_of(m.counter), made))
        },
    }
}

/// The message for an id that has no item.
pub open spec fn no_item_message(id: Seq<char>) -> Seq<char> {
    "no item with id "@ + crate::text::debug_text(id)
}

/// What `hide` does: the new registry and the step to take.
pub open spec fn hide_outcome(m: ManagerView, id: Seq<char>) -> (ManagerView, StepView) {
    if contains_id(m.entries, id) {
        let i = index_of(m.entries, id);
        let rest = m.entries.remove(i);
        (ManagerView { entries: rest, ..m }, StepView::Unregister(m.entries[i].object_path, rest.len() == 0))
    } else {
        (m, StepView::Reply(err_view(no_item_message(id))))
    }
}

/// The registry after an item published at `path` is registered under its id,
/// replacing an entry with the same id.
pub open spec fn register_outcome(m: ManagerView, path: Seq<char>, item: ItemView) -> ManagerView {
    let e = EntryView { id: item.id, object_path: path, item };
    if contains_id(m.entries, item.id) {
        ManagerView { entries: m.entries.update(index_of(m.entries, item.id), e), ..m }
    } else {
        ManagerView { entries: m.entries.push(e), ..m }
    }
}

/// The object path of the entry that registering `item` replaces, if any.
pub open spec fn displaced_path(m: ManagerView, item: ItemView) -> Option<Seq<char>> {
    if contains_id(m.entries, item.id) {
        Some(m.entries[index_of(m.entries, item.id)].object_path)
    } else {
        None
    }
}

/// What `list` reports of an entry.
pub open spec fn info_of(e: EntryView) -> ItemInfoView {
    ItemInfoView { id: e.item.id, icon: e.item.icon, tooltip: e.item.tooltip, pid: e.item.pid }
}

/// The reports of all entries, in order.
pub open spec fn infos_of(s: Seq<EntryView>) -> Seq<ItemInfoView> {
    s.map_values(|e: EntryView| info_of(e))
}

/// What `dispatch` does: the new registry and the step to take.
pub open spec fn dispatch_outcome(
    m: ManagerView,
    req: Request,
    exists: bool,
    contents: Result<Seq<u8>, Seq<char>>,
    now: u64,
) -> (ManagerView, StepView) {
    if req.cmd@ == CMD_SHOW@ {
        show_outcome(m, req, exists, contents, now)
    } else if req.cmd@ == CMD_HIDE@ {
        match req.id {
            Some(id) => hide_outcome(m, id@),
            None => (m, StepView::Reply(err_view("id is required for hide"@))),
        }
    } else if req.cmd@ == CMD_LIST@ {
        (m, StepView::Reply(items_view(infos_of(m.entries))))
    } else {
        (m, StepView::Reply(err_view("unknown command "@ + crate::text::debug_text(req.cmd@))))
    }
}

/// The entries whose item belongs to process `pid`.
pub open spec fn owned_by(pid: i32) -> spec_fn(EntryView) -> bool {
    |e: EntryView| e.item.pid == Some(pid)
}

/// The entries whose item does not belong to process `pid`.
pub open spec fn not_owned_by(pid: i32) -> spec_fn(EntryView) -> bool {
    |e: EntryView| e.item.pid != Some(pid)
}

/// The object paths of entries, in order.
pub open spec fn paths_of(s: Seq<EntryView>) -> Seq<Seq<char>> {
    s.map_values(|e: EntryView| e.object_path)
}

/// The processes the items belong to, in order, one per item that has one.
pub open spec fn pids_of(s: Seq<EntryView>) -> Seq<i32>
    decreases s.len(),
{
    if s.len() == 0 {
        Seq::empty()
    } else {
        let rest = pids_of(s.drop_last());
        match s.last().item.pid {
            Some(p) => rest.push(p),
            None => rest,
        }
    }
}

/// The entries after one tick of their elapsed-time displays.
pub open spec fn ticked_entries(s: Seq<EntryView>, now: u64) -> Seq<EntryView> {
    s.map_values(|e: EntryView| EntryView { item: ticked_item(e.item, now).0, ..e })
}

/// The object paths of the entries whose display changed on a tick, in order.
pub open spec fn ticked_paths(s: Seq<EntryView>, now: u64) -> Seq<Seq<char>>
    decreases s.len(),
{
    if s.len() == 0 {
        Seq::empty()
    } else {
        let rest = ticked_paths(s.drop_last(), now);
        if ticked_item(s.last().item, now).1 {
            rest.push(s.last().object_path)
        } else {
            rest
        }
    }
}


/// Different numbers give different object paths: each item the registry makes
/// is published at a path no earlier one had, as long as the counter has not
/// wrapped around.
pub proof fn lemma_object_paths_distinct(a: nat, b: nat)
    requires
        a != b,
    ensures
        object_path_of(a) != object_path_of(b),
{
    let p = "/StatusNotifierItem/_"@;
    if object_path_of(a) == object_path_of(b) {
        assert(object_path_of(a).subrange(p.len() as int, object_path_of(a).len() as int) =~= decimal(a));
        assert(object_path_of(b).subrange(p.len() as int, object_path_of(b).len() as int) =~= decimal(b));
        lemma_decimal_injective(a, b);
    }
}

/// The entry at a position of a well-formed registry is the one its id finds.
proof fn lemma_index_of_unique(s: Seq<EntryView>, i: int)
    requires
        registry_wf(s),
        0 <= i < s.len(),
    ensures
        contains_id(s, s[i].id),
        index_of(s, s[i].id) == i,
{
    assert(s[i].id == s[i].id);
    let k = index_of(s, s[i].id);
    assert(s[k].id == s[i].id);
}

/// Registering an item keeps the registry well formed; looking the item's id
/// up then gives the new entry, and every other id finds what it found before.
pub proof fn lemma_lookup_after_register(m: ManagerView, path: Seq<char>, item: ItemView, other: Seq<char>)
    requires
        registry_wf(m.entries),
        other != item.id,
    ensures
        registry_wf(register_outcome(m, path, item).entries),
        lookup(register_outcome(m, path, item).entries, item.id) == Some(EntryView { id: item.id, object_path: path, item }),
        lookup(register_outcome(m, path, item).entries, other) == lookup(m.entries, other),
{
    let s = m.entries;
    let e = EntryView { id: item.id, object_path: path, item };
    let t = register_outcome(m, path, item).entries;
    if contains_id(s, item.id) {
        let i = index_of(s, item.id);
        assert(t == s.update(i, e));
        lemma_wf_same_ids(s, t);
        lemma_index_of_unique(t, i);
        if contains_id(s, other) {
            let j = index_of(s, other);
            assert(j != i);
            assert(t[j] == s[j]);
            lemma_index_of_unique(t, j);
        } else {
            if contains_id(t, other) {
                let j = index_of(t, other);
                assert(j != i);
                assert(s[j] == t[j]);
            }
        }
    } else {
        assert(t == s.push(e));
        lemma_wf_push(s, e);
        lemma_index_of_unique(t, s.len() as int);
        if contains_id(s, other) {
            let j = index_of(s, other);
            assert(t[j] == s[j]);
            lemma_index_of_unique(t, j);
        } else {
            if contains_id(t, other) {
                let j = index_of(t, other);
                assert(j != s.len());
                assert(s[j] == t[j]);
            }
        }
    }
}

/// Removing an id keeps the registry well formed; the id then finds nothing, and
/// every other id finds what it found before. An unknown id leaves the registry
/// as it was and is answered with an error.
pub proof fn lemma_lookup_after_hide(m: ManagerView, id: Seq<char>, other: Seq<char>)
    requires
        registry_wf(m.entries),
        other != id,
    ensures
        registry_wf(hide_outcome(m, id).0.entries),
        lookup(hide_outcome(m, id).0.entries, id) is None,
        lookup(hide_outcome(m, id).0.entries, other) == lookup(m.entries, other),
        hide_outcome(m, id).0.counter == m.counter,
        !contains_id(m.entries, id) ==> hide_outcome(m, id).0 == m && hide_outcome(m, id).1 == StepView::Reply(err_view(no_item_message(id))),
{
    let s = m.entries;
    if contains_id(s, id) {
        let i = index_of(s, id);
        let t = s.remove(i);
        assert(hide_outcome(m, id).0.entries == t);
        lemma_wf_remove(s, i);
        if contains_id(t, id) {
            let j = index_of(t, id);
            assert(t[j] == s[if j < i { j } else { j + 1 }]);
        }
        if contains_id(s, other) {
            let j = index_of(s, other);
            assert(j != i);
            let j2 = if j < i { j } else { j - 1 };
            assert(t[j2] == s[j]);
            lemma_index_of_unique(t, j2);
        } else if contains_id(t, other) {
            let j = index_of(t, other);
            assert(t[j] == s[if j < i { j } else { j + 1 }]);
        }
    }
}

/// Removing an item that was just registered under a new id gives back the
/// registry as it was.
pub proof fn lemma_hide_undoes_register(m: ManagerView, path: Seq<char>, item: ItemView)
    requires
        registry_wf(m.entries),
        !contains_id(m.entries, item.id),
    ensures
        hide_outcome(register_outcome(m, path, item), item.id).0 == m,
{
    let e = EntryView { id: item.id, object_path: path, item };
    let t = m.entries.push(e);
    assert(register_outcome(m, path, item).entries == t);
    assert(t[m.entries.len() as int].id == item.id);
    lemma_wf_push(m.entries, e);
    lemma_index_of_unique(t, m.entries.len() as int);
    assert(t.remove(m.entries.len() as int) =~= m.entries);
}

/// After the items of process `pid` are removed, none is left that belongs to
/// it, and every item of another process (or of none) is still there.
pub proof fn lemma_hide_pid_removes_exactly(s: Seq<EntryView>, pid: i32)
    ensures
        forall|i: int| 0 <= i < s.filter(not_owned_by(pid)).len() ==> (#[trigger] s.filter(not_owned_by(pid))[i]).item.pid != Some(pid),
        forall|i: int| 0 <= i < s.len() && s[i].item.pid != Some(pid) ==> s.filter(not_owned_by(pid)).contains(#[trigger] s[i]),
        forall|i: int| 0 <= i < s.filter(owned_by(pid)).len() ==> (#[trigger] s.filter(owned_by(pid))[i]).item.pid == Some(pid),
{
    broadcast use vstd::seq_lib::group_filter_ensures;
    assert forall|i: int| 0 <= i < s.len() && s[i].item.pid != Some(pid) implies s.filter(not_owned_by(pid)).contains(#[trigger] s[i]) by {
        assert(not_owned_by(pid)(s[i]));
        s.lemma_filter_contains_rev(not_owned_by(pid), s[i]);
        assert(s.contains(s[i]));
    }
}


/// The texts of an optional request field, empty when it is absent.
pub open spec fn text_or_empty(o: Option<String>) -> Seq<char> {
    match o {
        Some(s) => s@,
        None => Seq::<char>::empty(),
    }
}

/// A `show` for an id that has no item numbers the new item with the counter,
/// advances the counter and leaves the entries alone. If the icon passes its
/// check, the item handed back has the request's id, icon, tooltip, click command
/// and process (empty texts when absent), no description, and a timer started at
/// `now` exactly when the request asks for one; otherwise the check's error is
/// handed back.
pub proof fn lemma_show_new_item(
    m: ManagerView,
    req: Request,
    exists: bool,
    contents: Result<Seq<u8>, Seq<char>>,
    now: u64,
)
    requires
        req.id is Some,
        !contains_id(m.entries, req.id->0@),
    ensures
        ({
            let (m2, step) = show_outcome(m, req, exists, contents, now);
            &&& m2.entries == m.entries
            &&& m2.counter == next_counter(m.counter)
            &&& match step {
                StepView::Register(p, made) => {
                    &&& p == object_path_of(m.counter)
                    &&& match icon_check(text_or_empty(req.icon), exists, contents) {
                        Err(e) => made == Err::<ItemView, Seq<char>>(e),
                        Ok(()) => made matches Ok(it) && {
                            &&& it.id == req.id->0@
                            &&& it.icon == text_or_empty(req.icon)
                            &&& it.tooltip == text_or_empty(req.tooltip)
                            &&& it.on_click == text_or_empty(req.on_click)
                            &&& it.pid == req.pid
                            &&& it.description.len() == 0
                            &&& it.show_duration == (req.show_duration == Some(true))
                            &&& it.started_at == if req.show_duration == Some(true) { Some(now) } else { None }
                        },
                    }
                },
                _ => false,
            }
        }),
{
    assert(or_empty(req.icon) == text_or_empty(req.icon));
}

/// The entries whose elapsed-time display is running: a timer is on and has a
/// start.
pub open spec fn running_timer() -> spec_fn(EntryView) -> bool {
    |e: EntryView| e.item.show_duration && e.item.started_at is Some
}

/// A tick announces exactly the items whose timer is running, each once, in
/// registry order; every such item's description becomes its elapsed time, and
/// no other item's description changes.
pub proof fn lemma_ticked_paths_are_running_timers(s: Seq<EntryView>, now: u64)
    ensures
        ticked_paths(s, now) == paths_of(s.filter(running_timer())),
        forall|i: int| 0 <= i < s.len() && running_timer()(s[i]) ==>
            #[trigger] ticked_entries(s, now)[i].item.description == crate::text::duration_text(crate::item::elapsed_secs(s[i].item.started_at->0, now)),
        forall|i: int| 0 <= i < s.len() && !running_timer()(s[i]) ==>
            #[trigger] ticked_entries(s, now)[i].item.description == s[i].item.description,
    decreases s.len(),
{
    if s.len() > 0 {
        let init = s.drop_last();
        let e = s.last();
        lemma_ticked_paths_are_running_timers(init, now);
        assert(init.push(e) =~= s);
        init.lemma_filter_push(e, running_timer());
        assert(ticked_item(e.item, now).1 == running_timer()(e));
        if running_timer()(e) {
            assert(paths_of(init.filter(running_timer()).push(e)) =~= paths_of(init.filter(running_timer())).push(e.object_path));
        }
    }
}

/// The processes among `pids` that are no longer running, in order; `alive[k]`
/// tells whether `pids[k]` runs.
pub open spec fn dead_of(pids: Seq<i32>, alive: Seq<bool>) -> Seq<i32>
    decreases pids.len(),
{
    if pids.len() == 0 || alive.len() == 0 {
        Seq::empty()
    } else {
        let rest = dead_of(pids.drop_last(), alive.drop_last());
        if alive.last() {
            rest
        } else {
            rest.push(pids.last())
        }
    }
}

/// The watched processes whose items are to be removed: those that are no
/// longer running (`alive[k]` tells whether `pids[k]` runs), in order.
pub fn dead_pids(pids: &Vec<i32>, alive: &Vec<bool>) -> (r: Vec<i32>)
    requires
        pids@.len() == alive@.len(),
    ensures
        r@ == dead_of(pids@, alive@),
{
    let n = pids.len();
    let mut r: Vec<i32> = Vec::new();
    let mut i: usize = 0;
    while i < n
        invariant
            n == pids@.len(),
            n == alive@.len(),
            i <= n,
            r@ == dead_of(pids@.take(i as int), alive@.take(i as int)),
        decreases n - i,
    {
        proof {
            assert(pids@.take(i as int + 1).drop_last() =~= pids@.take(i as int));
            assert(alive@.take(i as int + 1).drop_last() =~= alive@.take(i as int));
        }
        if !alive[i] {
            r.push(pids[i]);
        }
        i = i + 1;
    }
    proof {
        assert(pids@.take(n as int) =~= pids@);
        assert(alive@.take(n as int) =~= alive@);
    }
    r
}

/// The bus object path of the `n`-th item made.
fn object_path_for(n: usize) -> (r: String)
    ensures
        r@ == object_path_of(n as nat),
{
    let mut r = String::from_str("/StatusNotifierItem/_");
    push_decimal(&mut r, n as u64);
    r
}

/// A registry whose entries keep their ids and items' ids, position by position,
/// stays well formed.
proof fn lemma_wf_same_ids(s: Seq<EntryView>, t: Seq<EntryView>)
    requires
        registry_wf(s),
        t.len() == s.len(),
        forall|i: int| 0 <= i < t.len() ==> #[trigger] t[i].id == s[i].id && t[i].item.id == t[i].id,
    ensures
        registry_wf(t),
{
    assert forall|a: int, b: int| 0 <= a < t.len() && 0 <= b < t.len() && a != b implies #[trigger] t[a].id != #[trigger] t[b].id by {
        assert(t[a].id == s[a].id && t[b].id == s[b].id);
    }
}

/// Appending an entry with a new id keeps the registry well formed.
proof fn lemma_wf_push(s: Seq<EntryView>, e: EntryView)
    requires
        registry_wf(s),
        !contains_id(s, e.id),
        e.item.id == e.id,
    ensures
        registry_wf(s.push(e)),
{
    let t = s.push(e);
    assert forall|a: int, b: int| 0 <= a < t.len() && 0 <= b < t.len() && a != b implies #[trigger] t[a].id != #[trigger] t[b].id by {
        if a < s.len() && b < s.len() {
            assert(t[a] == s[a] && t[b] == s[b]);
        } else if a < s.len() {
            assert(t[a] == s[a]);
        } else {
            assert(t[b] == s[b]);
        }
    }
    assert forall|a: int| 0 <= a < t.len() implies (#[trigger] t[a]).item.id == t[a].id by {
        if a < s.len() {
            assert(t[a] == s[a]);
        }
    }
}

/// Removing an entry keeps the registry well formed; the entries after it move
/// down by one.
proof fn lemma_wf_remove(s: Seq<EntryView>, i: int)
    requires
        registry_wf(s),
        0 <= i < s.len(),
    ensures
        registry_wf(s.remove(i)),
        forall|a: int| 0 <= a < s.len() - 1 ==> #[trigger] s.remove(i)[a] == s[if a < i { a } else { a + 1 }],
{
    let t = s.remove(i);
    assert forall|a: int| 0 <= a < s.len() - 1 implies #[trigger] t[a] == s[if a < i { a } else { a + 1 }] by {}
    assert forall|a: int, b: int| 0 <= a < t.len() && 0 <= b < t.len() && a != b implies #[trigger] t[a].id != #[trigger] t[b].id by {
        assert(t[a] == s[if a < i { a } else { a + 1 }]);
        assert(t[b] == s[if b < i { b } else { b + 1 }]);
    }
    assert forall|a: int| 0 <= a < t.len() implies (#[trigger] t[a]).item.id == t[a].id by {
        assert(t[a] == s[if a < i { a } else { a + 1 }]);
    }
}

/// The position of the entry with the id `id` in `entries`, if any.
fn find_in(entries: &Vec<Entry>, id: &str) -> (r: Option<usize>)
    requires
        registry_wf(entries_view(entries@)),
    ensures
        match r {
            Some(i) => contains_id(entries_view(entries@), id@) && i as int == index_of(entries_view(entries@), id@)
                && i < entries@.len(),
            None => !contains_id(entries_view(entries@), id@),
        },
{
    let ghost s = entries_view(entries@);
    let n = entries.len();
    let mut i: usize = 0;
    while i < n
        invariant
            n == entries@.len(),
            s == entries_view(entries@),
            i <= n,
            registry_wf(s),
            forall|j: int| 0 <= j < i ==> s[j].id != id@,
        decreases n - i,
    {
        if str_eq(entries[i].id.as_str(), id) {
            proof {
                assert(s[i as int].id == id@);
                lemma_index_of_unique(s, i as int);
            }
            return Some(i);
        }
        i = i + 1;
    }
    None
}

impl Manager {
    /// The registry's invariant, kept by every operation: see [`registry_wf`].
    #[verifier::type_invariant]
    spec fn inv(self) -> bool {
        registry_wf(entries_view(self.entries@))
    }

    /// The registry's invariant holds.
    pub open spec fn wf(&self) -> bool {
        registry_wf(self@.entries)
    }

    /// An empty registry.
    pub fn new() -> (m: Self)
        ensures
            m.wf(),
            m@.entries.len() == 0,
            m@.counter == 0,
    {
        let m = Manager { entries: Vec::new(), counter: 0 };
        assert(m@.entries =~= Seq::<EntryView>::empty());
        m
    }

    /// Moves the entries out, leaving none behind.
    fn take_entries(&mut self) -> (v: Vec<Entry>)
        ensures
            entries_view(v@) == old(self)@.entries,
            final(self)@.entries.len() == 0,
            final(self)@.counter == old(self)@.counter,
    {
        let mut v: Vec<Entry> = Vec::new();
        proof {
            assert(entries_view(v@) =~= Seq::<EntryView>::empty());
        }
        std::mem::swap(&mut v, &mut self.entries);
        v
    }

    /// The item with the id `id`, if any.
    pub fn get(&self, id: &str) -> (r: Option<&Item>)
        ensures
            self.wf(),
            match lookup(self@.entries, id@) {
                Some(e) => r matches Some(item) && item@ == e.item,
                None => r is None,
            },
    {
        proof {
            use_type_invariant(self);
        }
        match find_in(&self.entries, id) {
            Some(i) => Some(&self.entries[i].item),
            None => None,
        }
    }

    /// Creates or updates the item that `req` names. An existing item takes the
    /// fields the request carries; a new one is numbered and handed back to be
    /// published (see [`Step::Register`]). `icon_exists` and `icon_contents` are
    /// what the disk holds for the request's icon; `now` starts a requested timer.
    pub fn show(
        &mut self,
        req: Request,
        icon_exists: bool,
        icon_contents: Result<Vec<u8>, String>,
        now: u64,
    ) -> (step: Step)
        ensures
            final(self).wf(),
            (final(self)@, step@) == show_outcome(old(self)@, req, icon_exists, contents_view(icon_contents), now),
            req.id is Some && !contains_id(old(self)@.entries, req.id->0@) ==> (step matches Step::Register { item: Ok(it), .. } ==> {
                &&& it@.id == req.id->0@
                &&& it@.icon == text_or_empty(req.icon)
                &&& it@.tooltip == text_or_empty(req.tooltip)
                &&& it@.on_click == text_or_empty(req.on_click)
                &&& it@.pid == req.pid
            }),
    {
        proof {
            use_type_invariant(&*self);
            if req.id is Some && !contains_id(self@.entries, req.id->0@) {
                lemma_show_new_item(self@, req, icon_exists, contents_view(icon_contents), now);
            }
        }
        let id = match &req.id {
            None => return Step::Reply(Response::err(String::from_str("id is required"))),
            Some(id) => id,
        };
        match find_in(&self.entries, id.as_str()) {
            Some(i) => {
                let ghost old_entries = self@.entries;
                let mut entries = self.take_entries();
                let mut e = entries.remove(i);
                let r = e.item.update(&req, icon_exists, icon_contents, now);
                let path = e.object_path.clone();
                entries.insert(i, e);
                let ghost new_entries = match r {
                    Ok(()) => old_entries.update(i as int, EntryView { item: updated_item(old_entries[i as int].item, req, now), ..old_entries[i as int] }),
                    Err(_) => old_entries,
                };
                proof {
                    assert(entries_view(entries@) =~= new_entries);
                    lemma_wf_same_ids(old_entries, new_entries);
                }
                self.entries = entries;
                assert(self@.counter == old(self)@.counter);
                match r {
                    Err(msg) => Step::Reply(Response::err(msg)),
                    Ok(()) => {
                        let step = Step::Announce { object_path: path };
                        assert(step@ == show_outcome(old(self)@, req, icon_exists, contents_view(icon_contents), now).1);
                        assert(self@ == show_outcome(old(self)@, req, icon_exists, contents_view(icon_contents), now).0);
                        step
                    },
                }
            },
            None => {
                let serial = self.counter;
                self.counter = self.counter.wrapping_add(1);
                let path = object_path_for(serial);
                let icon = match &req.icon {
                    Some(s) => s.as_str(),
                    None => "",
                };
                let tooltip = match &req.tooltip {
                    Some(s) => s.as_str(),
                    None => "",
                };
                let on_click = match &req.on_click {
                    Some(s) => s.as_str(),
                    None => "",
                };
                proof {
                    reveal_strlit("");
                    assert(""@ =~= Seq::<char>::empty());
                    assert(icon@ == or_empty(req.icon));
                    assert(tooltip@ == or_empty(req.tooltip));
                    assert(on_click@ == or_empty(req.on_click));
                    assert(self@.counter == next_counter(old(self)@.counter));
                }
                match Item::new(id.clone(), icon, tooltip, on_click, icon_exists, icon_contents) {
                    Err(msg) => Step::Register { object_path: path, item: Err(msg) },
                    Ok(item) => {
                        let mut item = item;
                        item.pid = req.pid;
                        if req.show_duration == Some(true) {
                            item.show_duration = true;
                            item.started_at = Some(now);
                        }
                        let step = Step::Register { object_path: path, item: Ok(item) };
                        assert(step@ == show_outcome(old(self)@, req, icon_exists, contents_view(icon_contents), now).1);
                        step
                    },
                }
            },
        }
    }

    /// Registers an item that was published at `object_path`, under the item's
    /// id, and answers ok. An entry with that id is replaced; its object path is
    /// handed back so that the caller can withdraw it.
    pub fn register(&mut self, object_path: String, item: Item) -> (r: (Response, Option<String>))
        ensures
            final(self).wf(),
            final(self)@ == register_outcome(old(self)@, object_path@, item@),
            r.0@ == crate::protocol::ok_view(),
            crate::protocol::opt_view(r.1) == displaced_path(old(self)@, item@),
    {
        proof {
            use_type_invariant(&*self);
        }
        let mut displaced: Option<String> = None;
        let ghost old_entries = self@.entries;
        let id = item.id.clone();
        let e = Entry { id: item.id.clone(), object_path, item };
        let found = find_in(&self.entries, id.as_str());
        let mut entries = self.take_entries();
        match found {
            Some(i) => {
                displaced = Some(entries[i].object_path.clone());
                entries.set(i, e);
                proof {
                    assert(entries_view(entries@) =~= old_entries.update(i as int, e@));
                    lemma_wf_same_ids(old_entries, old_entries.update(i as int, e@));
                }
            },
            None => {
                entries.push(e);
                proof {
                    assert(entries_view(entries@) =~= old_entries.push(e@));
                    lemma_wf_push(old_entries, e@);
                }
            },
        }
        self.entries = entries;
        (Response::ok(), displaced)
    }

    /// Removes the item with the id `id`; an unknown id is answered with an error
    /// and changes nothing.
    pub fn hide_item(&mut self, id: &str) -> (step: Step)
        ensures
            final(self).wf(),
            (final(self)@, step@) == hide_outcome(old(self)@, id@),
    {
        proof {
            use_type_invariant(&*self);
        }
        match find_in(&self.entries, id) {
            Some(i) => {
                let ghost old_entries = self@.entries;
                let mut entries = self.take_entries();
                let e = entries.remove(i);
                proof {
                    assert(entries_view(entries@) =~= old_entries.remove(i as int));
                    lemma_wf_remove(old_entries, i as int);
                }
                let now_empty = entries.len() == 0;
                self.entries = entries;
                Step::Unregister { object_path: e.object_path, now_empty }
            },
            None => Step::Reply(Response::err(with_debug("no item with id ", id))),
        }
    }

    /// The reports of all items, in registry order.
    pub fn list(&self) -> (r: Vec<ItemInfo>)
        ensures
            infos_view(r@) == infos_of(self@.entries),
    {
        let n = self.entries.len();
        let mut r: Vec<ItemInfo> = Vec::new();
        let mut i: usize = 0;
        while i < n
            invariant
                n == self.entries@.len(),
                i <= n,
                infos_view(r@) =~= infos_of(self@.entries.take(i as int)),
            decreases n - i,
        {
            let it = &self.entries[i].item;
            let info = ItemInfo { id: it.id.clone(), icon: it.icon.clone(), tooltip: it.tooltip.clone(), pid: it.pid };
            let ghost old_r = r@;
            r.push(info);
            proof {
                assert(infos_view(r@) =~= infos_view(old_r).push(info@));
                assert(info@ == info_of(self@.entries[i as int]));
                assert(self@.entries.take(i as int + 1) =~= self@.entries.take(i as int).push(self@.entries[i as int]));
                assert(infos_of(self@.entries.take(i as int + 1)) =~= infos_of(self@.entries.take(i as int)).push(info_of(self@.entries[i as int])));
            }
            i = i + 1;
        }
        proof {
            assert(self@.entries.take(n as int) =~= self@.entries);
        }
        r
    }

    /// The processes the items belong to, one per item that has one.
    pub fn watched_pids(&self) -> (r: Vec<i32>)
        ensures
            r@ == pids_of(self@.entries),
    {
        let n = self.entries.len();
        let mut r: Vec<i32> = Vec::new();
        let mut i: usize = 0;
        while i < n
            invariant
                n == self.entries@.len(),
                i <= n,
                r@ == pids_of(self@.entries.take(i as int)),
            decreases n - i,
        {
            proof {
                assert(self@.entries.take(i as int + 1).drop_last() =~= self@.entries.take(i as int));
            }
            match self.entries[i].item.pid {
                Some(p) => r.push(p),
                None => {},
            }
            i = i + 1;
        }
        proof {
            assert(self@.entries.take(n as int) =~= self@.entries);
        }
        r
    }

    /// Removes every item that belongs to process `pid`. Returns the object paths
    /// of the removed items, in order, and whether no item is left.
    pub fn hide_pid(&mut self, pid: i32) -> (r: (Vec<String>, bool))
        ensures
            final(self).wf(),
            final(self)@.entries == old(self)@.entries.filter(not_owned_by(pid)),
            final(self)@.counter == old(self)@.counter,
            r.0@.map_values(|s: String| s@) == paths_of(old(self)@.entries.filter(owned_by(pid))),
            r.1 == (final(self)@.entries.len() == 0),
    {
        proof {
            use_type_invariant(&*self);
        }
        let ghost old_entries = self@.entries;
        let mut kept: Vec<Entry> = Vec::new();
        let mut removed: Vec<String> = Vec::new();
        let old_v = self.take_entries();
        let n = old_v.len();
        let mut i: usize = 0;
        proof {
            assert(entries_view(kept@) =~= Seq::<EntryView>::empty());
        }
        while i < n
            invariant
                n == old_v@.len(),
                entries_view(old_v@) == old_entries,
                registry_wf(old_entries),
                i <= n,
                entries_view(kept@) == old_entries.take(i as int).filter(not_owned_by(pid)),
                registry_wf(entries_view(kept@)),
                forall|k: int| 0 <= k < kept@.len() ==> exists|j: int| 0 <= j < i && #[trigger] entries_view(kept@)[k] == old_entries[j],
                removed@.map_values(|s: String| s@) == paths_of(old_entries.take(i as int).filter(owned_by(pid))),
            decreases n - i,
        {
            let ghost ev = old_entries[i as int];
            proof {
                assert(ev == old_v@[i as int]@);
                assert(old_entries.take(i as int + 1) =~= old_entries.take(i as int).push(ev));
                old_entries.take(i as int).lemma_filter_push(ev, owned_by(pid));
                old_entries.take(i as int).lemma_filter_push(ev, not_owned_by(pid));
            }
            if old_v[i].item.pid == Some(pid) {
                let ghost old_removed = removed@;
                removed.push(old_v[i].object_path.clone());
                proof {
                    assert(owned_by(pid)(ev));
                    assert(!not_owned_by(pid)(ev));
                    assert(removed@.map_values(|s: String| s@) =~= old_removed.map_values(|s: String| s@).push(ev.object_path));
                    assert(paths_of(old_entries.take(i as int).filter(owned_by(pid)).push(ev)) =~= paths_of(old_entries.take(i as int).filter(owned_by(pid))).push(ev.object_path));
                }
            } else {
                let entry = Entry { id: old_v[i].id.clone(), object_path: old_v[i].object_path.clone(), item: old_v[i].item.clone() };
                let ghost kept_before = entries_view(kept@);
                kept.push(entry);
                proof {
                    assert(!owned_by(pid)(ev));
                    assert(not_owned_by(pid)(ev));
                    assert(entries_view(kept@) =~= kept_before.push(ev));
                    if contains_id(kept_before, ev.id) {
                        let a = index_of(kept_before, ev.id);
                        let ja = choose|j: int| 0 <= j < i && #[trigger] kept_before[a] == old_entries[j];
                        assert(old_entries[ja].id != old_entries[i as int].id);
                    }
                    lemma_wf_push(kept_before, ev);
                    assert forall|k: int| 0 <= k < kept@.len() implies exists|j: int| 0 <= j < i + 1 && #[trigger] entries_view(kept@)[k] == old_entries[j] by {
                        if k < kept_before.len() {
                            assert(entries_view(kept@)[k] == kept_before[k]);
                        } else {
                            assert(entries_view(kept@)[k] == old_entries[i as int]);
                        }
                    }
                }
            }
            i = i + 1;
        }
        proof {
            assert(old_entries.take(n as int) =~= old_entries);
        }
        let empty = kept.len() == 0;
        self.entries = kept;
        (removed, empty)
    }

    /// Advances the elapsed-time display of every item to `now`. Returns the object
    /// paths of the items whose tooltip changed, in order.
    pub fn tick_durations(&mut self, now: u64) -> (r: Vec<String>)
        ensures
            final(self).wf(),
            final(self)@.entries == ticked_entries(old(self)@.entries, now),
            final(self)@.counter == old(self)@.counter,
            r@.map_values(|s: String| s@) == ticked_paths(old(self)@.entries, now),
            r@.map_values(|s: String| s@) == paths_of(old(self)@.entries.filter(running_timer())),
    {
        proof {
            use_type_invariant(&*self);
            lemma_ticked_paths_are_running_timers(self@.entries, now);
        }
        let ghost old_entries = self@.entries;
        let mut entries = self.take_entries();
        let n = entries.len();
        let mut r: Vec<String> = Vec::new();
        let mut i: usize = 0;
        while i < n
            invariant
                n == entries@.len(),
                i <= n,
                old_entries.len() == n,
                forall|j: int| 0 <= j < i ==> #[trigger] entries_view(entries@)[j] == (EntryView { item: ticked_item(old_entries[j].item, now).0, ..old_entries[j] }),
                forall|j: int| i <= j < n ==> #[trigger] entries_view(entries@)[j] == old_entries[j],
                r@.map_values(|s: String| s@) == ticked_paths(old_entries.take(i as int), now),
            decreases n - i,
        {
            let ghost before = entries_view(entries@);
            let ghost old_r = r@;
            proof {
                assert(before[i as int] == old_entries[i as int]);
                assert(entries@[i as int]@ == before[i as int]);
            }
            let mut e = entries.remove(i);
            proof {
                assert(e@ == old_entries[i as int]);
            }
            let changed = e.item.tick(now);
            if changed {
                r.push(e.object_path.clone());
            }
            let ghost ev = e@;
            proof {
                assert(ev == (EntryView { item: ticked_item(old_entries[i as int].item, now).0, ..old_entries[i as int] }));
                if changed {
                    assert(r@.map_values(|s: String| s@) =~= old_r.map_values(|s: String| s@).push(ev.object_path));
                } else {
                    assert(r@ == old_r);
                }
            }
            entries.insert(i, e);
            proof {
                assert(entries_view(entries@) =~= before.update(i as int, ev));
                assert(old_entries.take(i as int + 1).drop_last() =~= old_entries.take(i as int));
                assert(old_entries.take(i as int + 1).last() == old_entries[i as int]);
                assert(r@.map_values(|s: String| s@) =~= ticked_paths(old_entries.take(i as int + 1), now));
            }
            i = i + 1;
        }
        proof {
            assert(old_entries.take(n as int) =~= old_entries);
            assert(entries_view(entries@) =~= ticked_entries(old_entries, now));
            lemma_wf_same_ids(old_entries, ticked_entries(old_entries, now));
        }
        self.entries = entries;
        r
    }

    /// Answers a request: `show`, `hide` or `list`; any other command is an error
    /// and changes nothing.
    pub fn dispatch(
        &mut self,
        req: Request,
        icon_exists: bool,
        icon_contents: Result<Vec<u8>, String>,
        now: u64,
    ) -> (step: Step)
        ensures
            final(self).wf(),
            (final(self)@, step@) == dispatch_outcome(old(self)@, req, icon_exists, contents_view(icon_contents), now),
    {
        proof {
            use_type_invariant(&*self);
        }
        if str_eq(req.cmd.as_str(), CMD_SHOW) {
            self.show(req, icon_exists, icon_contents, now)
        } else if str_eq(req.cmd.as_str(), CMD_HIDE) {
            match &req.id {
                Some(id) => self.hide_item(id.as_str()),
                None => Step::Reply(Response::err(String::from_str("id is required for hide"))),
            }
        } else if str_eq(req.cmd.as_str(), CMD_LIST) {
            let items = self.list();
            let r = Response::with_items(items);
            Step::Reply(r)
        } else {
            Step::Reply(Response::err(with_debug("unknown command ", req.cmd.as_str())))
        }
    }
}

} // verus!
