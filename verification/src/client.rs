//! The decisions of the `tray` command-line client: which request each command
//! sends, what it concludes from the answer, what it does when no daemon is
//! running, where the socket lives, and the exit status of `tray run`.
use crate::protocol::{
    err_view, items_view, ItemInfo, Request, Response, ResponseView, CMD_HIDE, CMD_LIST, CMD_SHOW,
};
use crate::text::{debug_text, push_decimal, decimal, str_eq, with_debug};
use vstd::prelude::*;

verus! {

/// Whether `send` may start the daemon when none answers.
#[derive(Debug, Clone, Copy, PartialEq, Eq)]
pub enum ConnectMode {
    StartIfMissing,
    NoStart,
}

/// A request with the command `cmd` and no other field.
pub open spec fn bare_request(r: Request, cmd: Seq<char>) -> bool {
    &&& r.cmd@ == cmd
    &&& r.id is None
    &&& r.icon is None
    &&& r.tooltip is None
    &&& r.on_click is None
    &&& r.pid is None
    &&& r.show_duration is None
}

/// The message of a `show` or `run` without anything to display.
pub open spec fn nothing_to_show_message() -> Seq<char> {
    "at least one of --icon or --tooltip is required"@
}

/// The answer given for a request when no daemon is running.
pub open spec fn default_response_of(req: Request) -> ResponseView {
    if req.cmd@ == CMD_LIST@ {
        items_view(Seq::empty())
    } else if req.cmd@ == CMD_HIDE@ {
        match req.id {
            Some(id) => err_view("no item with id "@ + debug_text(id@)),
            None => err_view("id is required for hide"@),
        }
    } else {
        err_view("daemon is not running"@)
    }
}

/// The answer for `req` when no daemon is running: an empty list for `list`, the
/// unknown-id error for `hide`, and "daemon is not running" otherwise.
pub fn default_response(req: &Request) -> (r: Response)
    ensures
        r@ == default_response_of(*req),
{
    if str_eq(req.cmd.as_str(), CMD_LIST) {
        let r = Response::with_items(Vec::new());
        assert(crate::protocol::infos_view(Seq::<ItemInfo>::empty()) =~= Seq::empty());
        r
    } else if str_eq(req.cmd.as_str(), CMD_HIDE) {
        match &req.id {
            Some(id) => Response::err(with_debug("no item with id ", id.as_str())),
            None => Response::err(String::from_str("id is required for hide")),
        }
    } else {
        Response::err(String::from_str("daemon is not running"))
    }
}

/// What `send` does when no daemon accepts the connection: `None` to start the
/// daemon and wait for it, or the answer to give without one.
pub fn send_fallback(req: &Request, mode: ConnectMode) -> (r: Option<Response>)
    ensures
        match mode {
            ConnectMode::StartIfMissing => r is None,
            ConnectMode::NoStart => r matches Some(resp) && resp@ == default_response_of(*req),
        },
{
    match mode {
        ConnectMode::StartIfMissing => None,
        ConnectMode::NoStart => Some(default_response(req)),
    }
}

/// The request of `tray show`, which needs an icon or a tooltip.
pub fn show_request(
    id: String,
    icon: Option<String>,
    tooltip: Option<String>,
    on_click: Option<String>,
    pid: Option<i32>,
) -> (r: Result<Request, String>)
    ensures
        icon is None && tooltip is None ==> (r matches Err(e) && e@ == nothing_to_show_message()),
        !(icon is None && tooltip is None) ==> (r matches Ok(req) && {
            &&& req.cmd@ == CMD_SHOW@
            &&& req.id == Some(id)
            &&& req.icon == icon
            &&& req.tooltip == tooltip
            &&& req.on_click == on_click
            &&& req.pid == pid
            &&& req.show_duration is None
        }),
{
    if icon.is_none() && tooltip.is_none() {
        return Err(String::from_str("at least one of --icon or --tooltip is required"));
    }
    Ok(
        Request {
            cmd: String::from_str(CMD_SHOW),
            id: Some(id),
            icon,
            tooltip,
            on_click,
            pid,
            show_duration: None,
        },
    )
}

/// The request that removes the item `id` (`tray hide`, and the clean-up after
/// `tray run`).
pub fn hide_request(id: String) -> (r: Request)
    ensures
        r.cmd@ == CMD_HIDE@,
        r.id == Some(id),
        r.icon is None && r.tooltip is None && r.on_click is None,
        r.pid is None && r.show_duration is None,
{
    Request {
        cmd: String::from_str(CMD_HIDE),
        id: Some(id),
        icon: None,
        tooltip: None,
        on_click: None,
        pid: None,
        show_duration: None,
    }
}

/// The request of `tray list`.
pub fn list_request() -> (r: Request)
    ensures
        bare_request(r, CMD_LIST@),
{
    Request {
        cmd: String::from_str(CMD_LIST),
        id: None,
        icon: None,
        tooltip: None,
        on_click: None,
        pid: None,
        show_duration: None,
    }
}

/// The request that `tray run` sends before it starts the command: the item
/// belongs to the client's own process `self_pid`, so that it is removed if the
/// client dies, and shows a timer when `duration` is set. It needs an icon, a
/// tooltip, or the timer.
pub fn run_request(
    id: String,
    icon: Option<String>,
    tooltip: Option<String>,
    duration: bool,
    on_click: Option<String>,
    self_pid: i32,
) -> (r: Result<Request, String>)
    ensures
        icon is None && tooltip is None && !duration ==> (r matches Err(e) && e@ == nothing_to_show_message()),
        !(icon is None && tooltip is None && !duration) ==> (r matches Ok(req) && {
            &&& req.cmd@ == CMD_SHOW@
            &&& req.id == Some(id)
            &&& req.icon == icon
            &&& req.tooltip == tooltip
            &&& req.on_click == on_click
            &&& req.pid == Some(self_pid)
            &&& req.show_duration == Some(duration)
        }),
{
    if icon.is_none() && tooltip.is_none() && !duration {
        return Err(String::from_str("at least one of --icon or --tooltip is required"));
    }
    Ok(
        Request {
            cmd: String::from_str(CMD_SHOW),
            id: Some(id),
            icon,
            tooltip,
            on_click,
            pid: Some(self_pid),
            show_duration: Some(duration),
        },
    )
}

/// What `tray hide` concludes from the answer: success, or the answer's error
/// ("hide failed" when it carries none).
pub fn hide_result(resp: Response) -> (r: Result<(), String>)
    ensures
        resp.ok ==> r is Ok,
        !resp.ok ==> (r matches Err(e) && e@ == match resp.error {
            Some(m) => m@,
            None => "hide failed"@,
        }),
{
    if resp.ok {
        Ok(())
    } else {
        match resp.error {
            Some(m) => Err(m),
            None => Err(String::from_str("hide failed")),
        }
    }
}

/// The rendering of an optional message by `{:?}`: `None`, or `Some(..)` around
/// the quoted message.
pub open spec fn debug_option_text(o: Option<Seq<char>>) -> Seq<char> {
    match o {
        Some(m) => "Some("@ + debug_text(m) + ")"@,
        None => "None"@,
    }
}

/// The ids that `tray list` prints, in the answer's order, or the error it fails
/// with.
pub fn list_result(resp: Response) -> (r: Result<Vec<String>, String>)
    ensures
        resp.ok ==> (r matches Ok(ids) && match resp.items {
            Some(items) => ids@.len() == items@.len() && forall|i: int| 0 <= i < items@.len() ==> #[trigger] ids@[i]@ == items@[i].id@,
            None => ids@.len() == 0,
        }),
        !resp.ok ==> (r matches Err(e) && e@ == debug_option_text(crate::protocol::opt_view(resp.error))),
{
    if resp.ok {
        let mut ids: Vec<String> = Vec::new();
        match &resp.items {
            Some(items) => {
                let n = items.len();
                let mut i: usize = 0;
                while i < n
                    invariant
                        n == items@.len(),
                        i <= n,
                        ids@.len() == i,
                        forall|j: int| 0 <= j < i ==> #[trigger] ids@[j]@ == items@[j].id@,
                    decreases n - i,
                {
                    ids.push(items[i].id.clone());
                    i = i + 1;
                }
            },
            None => {},
        }
        Ok(ids)
    } else {
        match &resp.error {
            Some(m) => {
                let s = with_debug("Some(", m.as_str());
                Err(s.concat(")"))
            },
            None => Err(String::from_str("None")),
        }
    }
}

/// The exit status of `tray run`: the command's exit code, else 128 plus the
/// signal that ended it, else 1.
pub open spec fn exit_code_of(code: Option<i32>, signal: Option<i32>) -> int {
    match code {
        Some(c) => c as int,
        None => match signal {
            Some(s) => 128 + s,
            None => 1,
        },
    }
}

/// The exit status of `tray run` from how the command ended (the exit code, or
/// the signal that ended it). A signal number is small, so that 128 plus it fits.
pub fn status_to_code(code: Option<i32>, signal: Option<i32>) -> (r: i32)
    requires
        code is None ==> match signal {
            Some(s) => s <= i32::MAX - 128,
            None => true,
        },
    ensures
        r == exit_code_of(code, signal),
{
    match code {
        Some(c) => c,
        None => match signal {
            Some(s) => 128 + s,
            None => 1,
        },
    }
}

/// Whether the program's arguments ask for the daemon (`tray daemon`), which is
/// started before the command line is parsed.
pub fn is_daemon_invocation(args: &Vec<String>) -> (b: bool)
    ensures
        b == (args@.len() > 1 && args@[1]@ == "daemon"@),
{
    args.len() > 1 && str_eq(args[1].as_str(), "daemon")
}

/// Where the daemon's socket lives: under the runtime directory when there is
/// one, otherwise in a directory of `/tmp` named after the effective user id.
pub open spec fn socket_path_of(runtime_dir: Option<Seq<char>>, euid: u32) -> Seq<char> {
    match runtime_dir {
        Some(d) => d + "/tray.sock"@,
        None => "/tmp/tray-"@ + decimal(euid as nat) + "/tray.sock"@,
    }
}

/// The socket path for the runtime directory (`XDG_RUNTIME_DIR`, if set) and the
/// effective user id.
pub fn socket_path(runtime_dir: Option<String>, euid: u32) -> (r: String)
    ensures
        r@ == socket_path_of(crate::protocol::opt_view(runtime_dir), euid),
{
    match runtime_dir {
        Some(d) => d.concat("/tray.sock"),
        None => {
            let mut s = String::from_str("/tmp/tray-");
            push_decimal(&mut s, euid as u64);
            s.concat("/tray.sock")
        },
    }
}

/// The error when the daemon did not come up in time, with the last connection
/// error when there was one.
pub fn daemon_timeout_message(last_err: Option<String>) -> (r: String)
    ensures
        r@ == match last_err {
            Some(e) => "daemon did not start within 3s: "@ + e@,
            None => "daemon did not start within 3s"@,
        },
{
    match last_err {
        Some(e) => String::from_str("daemon did not start within 3s: ").concat(e.as_str()),
        None => String::from_str("daemon did not start within 3s"),
    }
}

} // verus!
