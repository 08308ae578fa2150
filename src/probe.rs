//! The Variant Prober: the trailing-slash counterpart of a URL, and what a
//! probe of it found.
//!
//! A probe only confirms that the counterpart resolves; what it finds is
//! never crawled.

use vstd::prelude::*;
use crate::location::{opt_location, opt_view, url_with_path, Location, UrlParts};
use crate::page::{
    exception_line, exception_log, failure_status, is_failure_status, returned_line,
    status_error_log, status_ok_log,
};
use crate::text::{cat, cat3, cat4, char_vec};

verus! {

/// `path` without its trailing slashes.
pub open spec fn trim_slashes(path: Seq<char>) -> Seq<char>
    decreases path.len(),
{
    if path.len() > 0 && path.last() == '/' {
        trim_slashes(path.drop_last())
    } else {
        path
    }
}

/// The trailing-slash counterpart of `path`: without its trailing slashes
/// where it has any, none where nothing would be left; with a slash added
/// where it has none.
pub open spec fn counterpart_path(path: Seq<char>) -> Option<Seq<char>> {
    if path.len() > 0 && path.last() == '/' {
        let t = trim_slashes(path);
        if t.len() == 0 {
            None
        } else {
            Some(t)
        }
    } else {
        Some(path.push('/'))
    }
}

/// The URL that a probe of `loc` requests: `loc` with the counterpart path.
pub open spec fn counterpart(loc: UrlParts) -> Option<UrlParts> {
    match counterpart_path(loc.2) {
        Some(p) => url_with_path(loc.0, p),
        None => None,
    }
}

/// The trailing-slash counterpart of `path`, as `counterpart_path` says.
pub fn alternate_path(path: &str) -> (r: Option<String>)
    ensures
        opt_view(r) == counterpart_path(path@),
{
    let v = char_vec(path);
    let n = v.len();
    if n > 0 && v[n - 1] == '/' {
        let mut end: usize = n;
        assert(v@.take(n as int) =~= v@);
        while end > 0 && v[end - 1] == '/'
            invariant
                end <= v@.len(),
                v@ == path@,
                trim_slashes(v@.take(end as int)) == trim_slashes(v@),
            decreases end,
        {
            assert(v@.take(end as int).drop_last() =~= v@.take(end - 1));
            end = end - 1;
        }
        if end == 0 {
            assert(v@.take(0) =~= Seq::<char>::empty());
            None
        } else {
            Some(String::from_str(path.substring_char(0, end)))
        }
    } else {
        proof {
            reveal_strlit("/");
        }
        let r = cat(path, "/");
        assert(r@ =~= path@.push('/'));
        Some(r)
    }
}

/// The URL to probe for `loc`, as `counterpart` says; none for a root path.
pub fn probe_target(loc: &Location) -> (r: Option<Location>)
    ensures
        opt_location(r) == counterpart(loc@),
{
    match alternate_path(loc.path.as_str()) {
        Some(p) => loc.with_path(p.as_str()),
        None => None,
    }
}

/// What came back from a GET whose body is not read.
pub enum StatusReply {
    /// No response: DNS, connection or timeout failure, with its description.
    Unreachable { error: String },
    /// A response with `status`, whose display form (the code and its
    /// reason phrase, `404 Not Found`) is `status_text`.
    Answered { status: u16, status_text: String },
}

/// What a probe found: an error line where it failed, and its log line.
pub struct ProbeCheck {
    pub error: Option<String>,
    pub log: String,
}

/// The error line that a probe of `url` records, if any.
pub open spec fn probe_error(url: Seq<char>, reply: StatusReply) -> Option<Seq<char>> {
    match reply {
        StatusReply::Unreachable { error } => Some(exception_line(url, error@)),
        StatusReply::Answered { status, status_text } => if failure_status(status) {
            Some(returned_line(url, status_text@))
        } else {
            None
        },
    }
}

/// The event log line of a probe of `url`.
pub open spec fn probe_log(url: Seq<char>, reply: StatusReply) -> Seq<char> {
    match reply {
        StatusReply::Unreachable { error } => exception_log(url, error@),
        StatusReply::Answered { status, status_text } => if failure_status(status) {
            status_error_log(url, status_text@)
        } else {
            status_ok_log(url, status_text@)
        },
    }
}

/// Judges the probe of `alt`: a transport failure or a 4xx/5xx status is an
/// error; anything else confirms the counterpart.
pub fn check_probe(alt: &Location, reply: &StatusReply) -> (r: ProbeCheck)
    ensures
        opt_view(r.error) == probe_error(alt@.0, *reply),
        r.log@ == probe_log(alt@.0, *reply),
{
    let url = alt.href.as_str();
    match reply {
        StatusReply::Unreachable { error } => ProbeCheck {
            error: Some(cat3(url, " exception ", error.as_str())),
            log: cat4("ERROR exception: ", url, " - ", error.as_str()),
        },
        StatusReply::Answered { status, status_text } => {
            let code = status_text.as_str();
            if is_failure_status(*status) {
                ProbeCheck {
                    error: Some(cat3(url, " returned ", code)),
                    log: cat4("ERROR ", code, ": ", url),
                }
            } else {
                ProbeCheck { error: None, log: cat4("OK ", code, ": ", url) }
            }
        }
    }
}

} // verus!
