//! Where a request goes: to one of the service endpoints, into the maze,
//! to the operator's interface, or through the admission chain.

use crate::maze::{is_maze_path, maze_path};
use crate::request::{extract_client_ip, Method, Request};
use crate::store::KeyValueStore;
use crate::text::{chars_of, same_str, starts_with};
use vstd::prelude::*;

verus! {

/// The handler of a request.
#[derive(Debug, Clone, Copy, PartialEq, Eq, Structural)]
pub enum Route {
    /// `/health`: the health check.
    Health,
    /// `POST /quiz`: an answer to the quiz.
    Quiz,
    /// `/metrics`: the exposition of the counters.
    Metrics,
    /// `POST /cdp-report`: a report of the detection script.
    CdpReport,
    /// A page of the maze.
    Maze,
    /// The operator's interface: everything that begins with `/admin`.
    Admin,
    /// Everything else: the admission chain.
    Site,
}

/// `/admin`
pub open spec fn admin_prefix() -> Seq<char> {
    seq!['/', 'a', 'd', 'm', 'i', 'n']
}

/// The handler of `req`. The service endpoints come first, then the
/// maze, then the operator's interface.
pub open spec fn route_of(req: Request) -> Route {
    if req.path@ == "/health"@ {
        Route::Health
    } else if req.path@ == "/quiz"@ && req.method == Method::Post {
        Route::Quiz
    } else if req.path@ == "/metrics"@ {
        Route::Metrics
    } else if req.path@ == "/cdp-report"@ && req.method == Method::Post {
        Route::CdpReport
    } else if maze_path(req.path@) {
        Route::Maze
    } else if admin_prefix().is_prefix_of(req.path@) {
        Route::Admin
    } else {
        Route::Site
    }
}

/// The handler of `req`.
pub fn route(req: &Request) -> (r: Route)
    ensures
        r == route_of(*req),
{
    let path = req.path.as_str();
    if same_str(path, "/health") {
        Route::Health
    } else if same_str(path, "/quiz") && req.method == Method::Post {
        Route::Quiz
    } else if same_str(path, "/metrics") {
        Route::Metrics
    } else if same_str(path, "/cdp-report") && req.method == Method::Post {
        Route::CdpReport
    } else if is_maze_path(path) {
        Route::Maze
    } else {
        let p = chars_of(path);
        let admin: Vec<char> = vec!['/', 'a', 'd', 'm', 'i', 'n'];
        assert(admin@ =~= admin_prefix());
        if starts_with(p.as_slice(), admin.as_slice()) {
            Route::Admin
        } else {
            Route::Site
        }
    }
}

/// Whether `ip` may ask for the health check: the local addresses, and
/// a client that names no address.
pub open spec fn may_check_health(ip: Seq<char>) -> bool {
    ip == "127.0.0.1"@ || ip == "::1"@ || ip == "unknown"@
}

/// `health:test`: the key that the health check writes, reads and
/// deletes.
pub open spec fn health_key() -> Seq<char> {
    "health:test"@
}

/// The status of a health check for a client at `ip`, where
/// `store_answers` says whether the store came back with a read: 403 for
/// a client that may not ask, else 200 where it did and 500 where it did
/// not.
pub open spec fn health_status_of(ip: Seq<char>, store_answers: bool) -> u16 {
    if !may_check_health(ip) {
        403
    } else if store_answers {
        200
    } else {
        500
    }
}

/// Whether `ip` may ask for the health check.
pub fn is_health_client(ip: &str) -> (r: bool)
    ensures
        r == may_check_health(ip@),
{
    same_str(ip, "127.0.0.1") || same_str(ip, "::1") || same_str(ip, "unknown")
}

/// The status of a health check for a client at `ip`.
pub fn health_status(ip: &str, store_answers: bool) -> (status: u16)
    ensures
        status == health_status_of(ip@, store_answers),
{
    if !is_health_client(ip) {
        403
    } else if store_answers {
        200
    } else {
        500
    }
}

/// The health check for a client at `ip`: a client that may not ask is
/// refused; else the store is tried with a write, a read and a delete of
/// one key, and the answer says whether the read came back.
pub fn handle_health<S: KeyValueStore>(store: &mut S, ip: &str) -> (status: u16)
    ensures
        final(store).dependable() == old(store).dependable(),
        !may_check_health(ip@) ==> status == 403 && final(store).contents() == old(store).contents(),
        may_check_health(ip@) ==> status == 200 || status == 500,
        may_check_health(ip@) && old(store).dependable() ==> status == 200 && final(store).contents()
            == old(store).contents().remove(health_key()),
        crate::store::same_but_at(old(store).contents(), final(store).contents(), health_key()),
{
    if !is_health_client(ip) {
        return 403;
    }
    let value: Vec<u8> = vec![0x6fu8, 0x6bu8];
    let _ = store.set("health:test", value.as_slice());
    let ok = store.get("health:test").is_ok();
    let _ = store.delete("health:test");
    assert(old(store).contents().insert(health_key(), value@).remove(health_key()) =~= old(
        store,
    ).contents().remove(health_key()));
    health_status(ip, ok)
}

/// What is answered where the store cannot be opened.
#[derive(Debug, Clone, Copy, PartialEq, Eq, Structural)]
pub enum Offline {
    /// Answer with this status: the endpoint needs the store, or the
    /// client may not use it.
    Status(u16),
    /// Serve the maze page; the request is not counted.
    ServeMaze,
    /// Hand the request to the operator's interface.
    ToAdmin,
    /// Let the request through: without the store no check can run.
    Bypass,
}

/// What is answered to `req` where the store cannot be opened. The site
/// stays open: a request for the site is let through unchecked.
pub open spec fn offline_of(req: Request) -> Offline {
    match route_of(req) {
        Route::Health => if may_check_health(crate::pipeline::sender(req)) {
            Offline::Status(500)
        } else {
            Offline::Status(403)
        },
        Route::Quiz | Route::Metrics | Route::CdpReport => Offline::Status(500),
        Route::Maze => Offline::ServeMaze,
        Route::Admin => Offline::ToAdmin,
        Route::Site => Offline::Bypass,
    }
}

/// What is answered to `req` where the store cannot be opened.
pub fn handle_without_store(req: &Request) -> (r: Offline)
    ensures
        r == offline_of(*req),
{
    match route(req) {
        Route::Health => {
            let ip = extract_client_ip(req);
            Offline::Status(health_status(ip.as_str(), false))
        },
        Route::Quiz | Route::Metrics | Route::CdpReport => Offline::Status(500),
        Route::Maze => Offline::ServeMaze,
        Route::Admin => Offline::ToAdmin,
        Route::Site => Offline::Bypass,
    }
}

} // verus!
