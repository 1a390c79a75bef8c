//! The HTTP responder's verifiable half: the liveness banner, the mapping
//! of an assembly outcome to a status code and body, and the per-scrape
//! state machine that decides when the lease endpoint is contacted.

use vstd::prelude::*;
use vstd::string::*;
use crate::assemble::{assemble, assembled_text, assembly_description, AssemblyError};
use crate::model::{healthy, License, StatusReport};
use crate::text::push_char;
use crate::upstream::{upstream_description, UpstreamError};

verus! {

/// An HTTP response of the exporter: a status code and a text body.
pub struct Reply {
    pub status_code: u16,
    pub body: String,
}

pub ghost struct ReplyView {
    pub status_code: int,
    pub body: Seq<char>,
}

impl View for Reply {
    type V = ReplyView;

    open spec fn view(&self) -> ReplyView {
        ReplyView { status_code: self.status_code as int, body: self.body@ }
    }
}

/// The fixed banner of the liveness route.
pub open spec fn banner_text() -> Seq<char> {
    "Unity License Server Exporter \n Metrics exported on /metrics"@
}

/// The liveness route's reply: the banner under status 200. It never fails.
pub fn index_reply() -> (r: Reply)
    ensures
        r@.status_code == 200,
        r@.body == banner_text(),
{
    Reply {
        status_code: 200,
        body: String::from_str("Unity License Server Exporter \n Metrics exported on /metrics"),
    }
}

/// How one character of an error description appears in the commented
/// body: a line feed is followed by a fresh comment marker.
pub open spec fn comment_char(c: char) -> Seq<char> {
    if c == '\n' {
        "\n# "@
    } else {
        seq![c]
    }
}

/// An error description with every one of its lines behind a comment
/// marker: each line feed is followed by "# ".
pub open spec fn comment_joined(msg: Seq<char>) -> Seq<char>
    decreases msg.len(),
{
    if msg.len() == 0 {
        Seq::empty()
    } else {
        comment_joined(msg.drop_last()) + comment_char(msg.last())
    }
}

/// The failure body: a comment header line, then the commented description,
/// so the whole body stays valid metrics-format text.
pub open spec fn error_body_text(msg: Seq<char>) -> Seq<char> {
    "# An error occured while trying to contact the license server: \n# "@ + comment_joined(msg)
}

/// Renders an assembly failure as the 503 body.
pub fn error_body(e: &AssemblyError) -> (s: String)
    ensures
        s@ == error_body_text(assembly_description(*e)),
{
    let msg = e.describe();
    let m = msg.as_str();
    let mut s = String::from_str(
        "# An error occured while trying to contact the license server: \n# ",
    );
    let ghost head = s@;
    let n = m.unicode_len();
    let mut i: usize = 0;
    while i < n
        invariant
            i <= n,
            n == m@.len(),
            s@ == head + comment_joined(m@.take(i as int)),
        decreases n - i,
    {
        let c = m.get_char(i);
        if c == '\n' {
            s.append("\n# ");
        } else {
            push_char(&mut s, c);
            proof {
                assert(head + comment_joined(m@.take(i as int)) + seq![c] =~= (head
                    + comment_joined(m@.take(i as int))).push(c));
            }
        }
        proof {
            assert(m@.take(i + 1 as int).drop_last() =~= m@.take(i as int));
            assert(m@.take(i + 1 as int).last() == m@[i as int]);
            assert(s@ == head + comment_joined(m@.take(i + 1 as int)));
        }
        i = i + 1;
    }
    proof {
        assert(m@.take(n as int) =~= m@);
    }
    s
}

/// Maps an assembly outcome to the metrics route's reply: 200 with the
/// metrics text on success, 503 with the commented error text on failure.
pub fn metrics_reply(outcome: Result<String, AssemblyError>) -> (r: Reply)
    ensures
        outcome matches Ok(t) ==> r@.status_code == 200 && r@.body == t@,
        outcome matches Err(e) ==> r@.status_code == 503 && r@.body == error_body_text(
            assembly_description(e),
        ),
{
    match outcome {
        Ok(t) => Reply { status_code: 200, body: t },
        Err(e) => Reply { status_code: 503, body: error_body(&e) },
    }
}

/// What the metrics route does next once the status fetch has returned.
pub enum ScrapeStep {
    /// The reply is decided; the lease endpoint is not contacted.
    Respond(Reply),
    /// The server is healthy: fetch the lease list next, exactly once.
    FetchLeases(StatusReport),
}

/// Decides on the status fetch's outcome. A failed fetch aborts the scrape
/// with 503 and the lease endpoint is never contacted; an unhealthy report
/// answers 200 with the two scalar gauges and no lease family; a healthy
/// report asks for the lease fetch.
pub fn on_status(outcome: Result<StatusReport, UpstreamError>) -> (s: ScrapeStep)
    ensures
        outcome matches Err(e) ==> s matches ScrapeStep::Respond(r) && r@.status_code == 503
            && r@.body == error_body_text(upstream_description(e)),
        outcome matches Ok(st) ==> (if healthy(st@) {
            s == ScrapeStep::FetchLeases(st)
        } else {
            s matches ScrapeStep::Respond(r) && r@.status_code == 200 && r@.body == assembled_text(
                st@,
                Option::None,
            )
        }),
{
    match outcome {
        Err(e) => ScrapeStep::Respond(metrics_reply(Err(AssemblyError::Upstream(e)))),
        Ok(st) => {
            if st.is_healthy() {
                ScrapeStep::FetchLeases(st)
            } else {
                match assemble(&st, Option::None) {
                    Ok(t) => ScrapeStep::Respond(metrics_reply(Ok(t))),
                    Err(e) => ScrapeStep::Respond(metrics_reply(Err(e))),
                }
            }
        },
    }
}

/// Finishes a healthy scrape on the lease fetch's outcome: a failed fetch
/// answers 503 with no partial metrics; a fetched list answers 200 with
/// the fully assembled text.
pub fn on_leases(status: StatusReport, outcome: Result<Vec<License>, UpstreamError>) -> (r: Reply)
    requires
        healthy(status@),
    ensures
        outcome matches Err(e) ==> r@.status_code == 503 && r@.body == error_body_text(
            upstream_description(e),
        ),
        outcome matches Ok(ls) ==> r@.status_code == 200 && r@.body == assembled_text(
            status@,
            Option::Some(ls.deep_view()),
        ),
{
    match outcome {
        Err(e) => metrics_reply(Err(AssemblyError::Upstream(e))),
        Ok(ls) => {
            match assemble(&status, Option::Some(&ls)) {
                Ok(t) => metrics_reply(Ok(t)),
                Err(e) => metrics_reply(Err(e)),
            }
        },
    }
}

} // verus!
