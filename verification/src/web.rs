//! What the facade serves under which path.

use crate::clock::unix_now;
use vstd::prelude::*;
use vstd::string::*;

verus! {

/// The version of the interface that the facade serves.
pub const API_V1: &'static str = "v1";

/// The page for a path under which nothing is served.
pub const NOT_FOUND: &'static str = "<html><body><h1>Page not found</h1></body></html>";

/// What the facade says of itself.
#[derive(Debug)]
pub struct SelfInfo {
    pub start_time: u64,
    pub uptime: u64,
    pub version: String,
}

impl SelfInfo {
    /// The record of a facade of that version which starts now.
    pub fn new(version: &str) -> (info: SelfInfo)
        ensures
            info.version@ == version@,
            info.uptime == 0,
            info.start_time <= i64::MAX,
    {
        let start_time = unix_now();
        SelfInfo { start_time, version: String::from_str(version), uptime: 0 }
    }

    /// The seconds from the start to `now`; a clock that went back counts
    /// as no time.
    pub open spec fn uptime_at(&self, now: u64) -> u64 {
        if now >= self.start_time {
            (now - self.start_time) as u64
        } else {
            0
        }
    }

    /// The record as it is shown at the second `now`, with the time that
    /// the facade has been up.
    pub fn shown_at(&self, now: u64) -> (shown: SelfInfo)
        ensures
            shown.start_time == self.start_time,
            shown.version == self.version,
            shown.uptime == self.uptime_at(now),
    {
        let uptime = if now >= self.start_time {
            now - self.start_time
        } else {
            0
        };
        SelfInfo { start_time: self.start_time, uptime, version: self.version.clone() }
    }

    /// The record as it is shown by the system clock.
    pub fn shown(&self) -> (shown: SelfInfo)
        ensures
            shown.start_time == self.start_time,
            shown.version == self.version,
            exists|now: u64| shown.uptime == #[trigger] self.uptime_at(now),
    {
        let now = unix_now();
        let shown = self.shown_at(now);
        shown
    }
}

/// What a path asks for.
#[derive(Debug)]
pub enum Route {
    /// A function of a version of the interface.
    Api(String, String),
    /// A file of the static content.
    Asset(String),
}

/// The places of the `/` among the first `upto` characters of `path`.
pub open spec fn slashes(path: Seq<char>, upto: int) -> Seq<int>
    decreases upto,
{
    if upto <= 0 {
        Seq::empty()
    } else if path[upto - 1] == '/' {
        slashes(path, upto - 1).push(upto - 1)
    } else {
        slashes(path, upto - 1)
    }
}

/// Whether `route` is what `path` asks for.  A path of four parts whose
/// second part is `api` asks for the function named by its fourth part in
/// the version named by its third; the first part is not looked at.  Any
/// other path asks for the asset of that path.
pub open spec fn routes(route: Route, path: Seq<char>) -> bool {
    let cuts = slashes(path, path.len() as int);
    if cuts.len() == 3 && path.subrange(cuts[0] + 1, cuts[1]) == "api"@ {
        &&& route matches Route::Api(ver, func)
        &&& ver@ == path.subrange(cuts[1] + 1, cuts[2])
        &&& func@ == path.subrange(cuts[2] + 1, path.len() as int)
    } else {
        route matches Route::Asset(asset) && asset@ == path
    }
}

/// Reads what a path asks for.
pub fn parse_path(path: &str) -> (route: Route)
    ensures
        routes(route, path@),
{
    let n = path.unicode_len();
    let mut cuts: Vec<usize> = Vec::new();
    let mut i: usize = 0;
    while i < n
        invariant
            i <= n,
            n == path@.len(),
            cuts@.len() == slashes(path@, i as int).len(),
            forall|j: int| 0 <= j < cuts@.len() ==> cuts@[j] as int == slashes(path@, i as int)[j],
            forall|j: int| 0 <= j < cuts@.len() ==> cuts@[j] < i,
            forall|j: int, k: int| 0 <= j < k < cuts@.len() ==> cuts@[j] < cuts@[k],
        decreases n - i,
    {
        if path.get_char(i) == '/' {
            cuts.push(i);
        }
        i += 1;
    }
    if cuts.len() == 3 {
        let first = String::from_str(path.substring_char(cuts[0] + 1, cuts[1]));
        let api = String::from_str("api");
        if first == api {
            let ver = String::from_str(path.substring_char(cuts[1] + 1, cuts[2]));
            let func = String::from_str(path.substring_char(cuts[2] + 1, n));
            return Route::Api(ver, func);
        }
    }
    Route::Asset(String::from_str(path))
}

/// What the facade answers with.
#[derive(Debug)]
pub enum Page {
    /// The static file of that path.
    Asset(String),
    /// The statistics by application.
    Apps,
    /// The membership snapshot.
    Cluster,
    /// The telemetry pod.
    Orcas,
    /// What the facade says of itself.
    SelfInfo,
    /// Nothing is served there.
    NotFound,
}

/// The page for a request.  Only reads are served; the interface has one
/// version, and the pod goes by two names.
pub open spec fn page_for(is_get: bool, route: Route) -> Page {
    if !is_get {
        Page::NotFound
    } else {
        match route {
            Route::Asset(asset) => Page::Asset(asset),
            Route::Api(ver, func) => if ver@ != API_V1@ {
                Page::NotFound
            } else if func@ == "apps"@ {
                Page::Apps
            } else if func@ == "cluster"@ {
                Page::Cluster
            } else if func@ == "orcas"@ || func@ == "pod"@ {
                Page::Orcas
            } else if func@ == "self"@ {
                Page::SelfInfo
            } else {
                Page::NotFound
            },
        }
    }
}

/// Picks the page for a request of that route.
pub fn page(is_get: bool, route: Route) -> (page: Page)
    ensures
        page == page_for(is_get, route),
{
    if !is_get {
        return Page::NotFound;
    }
    match route {
        Route::Asset(asset) => Page::Asset(asset),
        Route::Api(ver, func) => {
            if ver != String::from_str(API_V1) {
                Page::NotFound
            } else if func == String::from_str("apps") {
                Page::Apps
            } else if func == String::from_str("cluster") {
                Page::Cluster
            } else if func == String::from_str("orcas") || func == String::from_str("pod") {
                Page::Orcas
            } else if func == String::from_str("self") {
                Page::SelfInfo
            } else {
                Page::NotFound
            }
        },
    }
}

} // verus!
