//! The little of HTTP that the shells and their daemons speak: requests
//! and responses put together, and bodies taken out.

use vstd::prelude::*;
use vstd::string::*;
use vstd::utf8::encode_utf8;
use crate::text::{contains_spec, find_text, first_at, same_text};
use crate::widgets::{decimal, push_decimal};

verus! {

/// A response with a JSON body.
pub open spec fn response_spec(status: Seq<char>, body: Seq<char>) -> Seq<char> {
    "HTTP/1.1 "@ + status + "\r\nContent-Type: application/json\r\nContent-Length: "@ + decimal(
        encode_utf8(body).len(),
    ) + "\r\n\r\n"@ + body
}

/// A request to the local host; with a body it is JSON, and the body's
/// length in bytes is announced.
pub open spec fn request_spec(method: Seq<char>, path: Seq<char>, body: Seq<char>) -> Seq<char> {
    if body.len() == 0 {
        method + " "@ + path + " HTTP/1.1\r\nHost: localhost\r\n\r\n"@
    } else {
        method + " "@ + path
            + " HTTP/1.1\r\nHost: localhost\r\nContent-Type: application/json\r\nContent-Length: "@
            + decimal(encode_utf8(body).len()) + "\r\n\r\n"@ + body
    }
}

/// A job for the job daemon: a JSON body posted to `/v0/jobs`, with the
/// connection to be closed behind the answer.
pub open spec fn job_request_spec(body: Seq<char>) -> Seq<char> {
    "POST /v0/jobs HTTP/1.1\r\nHost: localhost\r\nContent-Type: application/json\r\nContent-Length: "@
        + decimal(encode_utf8(body).len()) + "\r\nConnection: close\r\n\r\n"@ + body
}

/// The empty line that ends the head of a message.
pub open spec fn head_end() -> Seq<char> {
    "\r\n\r\n"@
}

/// The path on the brain server for a kind of job.
pub open spec fn brain_path_spec(job_type: Seq<char>) -> Seq<char> {
    if job_type == "brain_proactive"@ {
        "/v0/brain/proactive"@
    } else if job_type == "brain_dashboard"@ {
        "/v0/brain/dashboard"@
    } else {
        "/v0/brain"@
    }
}

/// The job goes to the brain server.
pub open spec fn is_brain_job_spec(job_type: Seq<char>) -> bool {
    job_type == "brain"@ || job_type == "brain_proactive"@ || job_type == "brain_dashboard"@
}

/// Puts a response with a JSON body together.
pub fn http_response(status: &str, body: &str) -> (response: String)
    ensures
        response@ == response_spec(status@, body@),
{
    let mut out = String::from_str("HTTP/1.1 ");
    out.append(status);
    out.append("\r\nContent-Type: application/json\r\nContent-Length: ");
    push_decimal(&mut out, body.as_bytes().len() as u64);
    out.append("\r\n\r\n");
    out.append(body);
    assert(out@ =~= response_spec(status@, body@));
    out
}

/// Puts a request together.
pub fn http_request(method: &str, path: &str, body: &str) -> (request: String)
    ensures
        request@ == request_spec(method@, path@, body@),
{
    let mut out = String::from_str(method);
    out.append(" ");
    out.append(path);
    if body.is_empty() {
        out.append(" HTTP/1.1\r\nHost: localhost\r\n\r\n");
    } else {
        out.append(
            " HTTP/1.1\r\nHost: localhost\r\nContent-Type: application/json\r\nContent-Length: ",
        );
        push_decimal(&mut out, body.as_bytes().len() as u64);
        out.append("\r\n\r\n");
        out.append(body);
    }
    assert(out@ =~= request_spec(method@, path@, body@));
    out
}

/// Puts the request for a job together.
pub fn job_request(body: &str) -> (request: String)
    ensures
        request@ == job_request_spec(body@),
{
    let mut out = String::from_str(
        "POST /v0/jobs HTTP/1.1\r\nHost: localhost\r\nContent-Type: application/json\r\nContent-Length: ",
    );
    push_decimal(&mut out, body.as_bytes().len() as u64);
    out.append("\r\nConnection: close\r\n\r\n");
    out.append(body);
    assert(out@ =~= job_request_spec(body@));
    out
}

/// The body of a response: what stands behind the first empty line, or the
/// whole of it where there is no empty line.
pub fn extract_body(response: &str) -> (body: String)
    ensures
        !contains_spec(response@, head_end()) ==> body@ == response@,
        forall|at: int|
            first_at(response@, head_end(), at) ==> body@ == response@.subrange(
                at + head_end().len(),
                response@.len() as int,
            ),
{
    assert(response@.subrange(0, response@.len() as int) =~= response@);
    let n: usize = response.unicode_len();
    let m: usize = "\r\n\r\n".unicode_len();
    match find_text(response, "\r\n\r\n", 0) {
        Some(at) => {
            assert(at + m <= n);
            let from: usize = at + m;
            let body = String::from_str(response.substring_char(from, n));
            proof {
                assert forall|other: int| first_at(response@, head_end(), other) implies other
                    == at by {
                    if other < at {
                        assert(response@.subrange(other, other + head_end().len()) == head_end());
                    } else if at < other {
                        assert(response@.subrange(at as int, at + head_end().len()) == head_end());
                    }
                }
            }
            body
        },
        None => {
            proof {
                assert forall|other: int| first_at(response@, head_end(), other) implies false by {
                    assert(response@.subrange(other, other + head_end().len()) == head_end());
                }
            }
            String::from_str(response)
        },
    }
}

/// The body of a request: what stands between the first empty line and
/// the next, or the end; nothing where there is no empty line.
pub fn parse_body(request: &str) -> (body: String)
    ensures
        !contains_spec(request@, head_end()) ==> body@.len() == 0,
        forall|at: int|
            first_at(request@, head_end(), at) ==> {
                let rest = request@.subrange(at + head_end().len(), request@.len() as int);
                &&& !contains_spec(rest, head_end()) ==> body@ == rest
                &&& forall|end: int|
                    first_at(rest, head_end(), end) ==> body@ == rest.subrange(0, end)
            },
{
    assert(request@.subrange(0, request@.len() as int) =~= request@);
    let n: usize = request.unicode_len();
    let m: usize = "\r\n\r\n".unicode_len();
    match find_text(request, "\r\n\r\n", 0) {
        Some(at) => {
            assert(at + m <= n);
            let from: usize = at + m;
            let ghost rest = request@.subrange(from as int, n as int);
            proof {
                assert forall|other: int| first_at(request@, head_end(), other) implies other
                    == at by {
                    if other < at {
                        assert(request@.subrange(other, other + head_end().len()) == head_end());
                    } else if at < other {
                        assert(request@.subrange(at as int, at + head_end().len()) == head_end());
                    }
                }
            }
            match find_text(request, "\r\n\r\n", from) {
                Some(end) => {
                    let body = String::from_str(request.substring_char(from, end));
                    proof {
                        assert(body@ =~= rest.subrange(0, end - from));
                        assert forall|other: int| first_at(rest, head_end(), other) implies other
                            == end - from by {
                            if other < end - from {
                                assert(rest.subrange(other, other + head_end().len())
                                    == head_end());
                            } else if end - from < other {
                                assert(rest.subrange(end - from, end - from + head_end().len())
                                    == head_end());
                            }
                        }
                    }
                    body
                },
                None => {
                    proof {
                        assert forall|other: int| first_at(rest, head_end(), other) implies false by {
                            assert(rest.subrange(other, other + head_end().len()) == head_end());
                        }
                    }
                    String::from_str(request.substring_char(from, n))
                },
            }
        },
        None => {
            proof {
                assert forall|other: int| first_at(request@, head_end(), other) implies false by {
                    assert(request@.subrange(other, other + head_end().len()) == head_end());
                }
            }
            String::new()
        },
    }
}

/// Whether a job goes to the brain server.
pub fn is_brain_job(job_type: &str) -> (yes: bool)
    ensures
        yes == is_brain_job_spec(job_type@),
{
    same_text(job_type, "brain") || same_text(job_type, "brain_proactive") || same_text(
        job_type,
        "brain_dashboard",
    )
}

/// The path on the brain server for a kind of job.
pub fn brain_path(job_type: &str) -> (path: &'static str)
    ensures
        path@ == brain_path_spec(job_type@),
{
    if same_text(job_type, "brain_proactive") {
        "/v0/brain/proactive"
    } else if same_text(job_type, "brain_dashboard") {
        "/v0/brain/dashboard"
    } else {
        "/v0/brain"
    }
}

/// The id of a job that is taken on at `now_secs`.
pub fn job_id(now_secs: u64) -> (id: String)
    ensures
        id@ == "job_"@ + decimal(now_secs as nat),
{
    let mut id = String::from_str("job_");
    push_decimal(&mut id, now_secs);
    id
}

} // verus!
