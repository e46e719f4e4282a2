use nebula::http::{
    job_request, brain_path, extract_body, http_request, http_response, is_brain_job, job_id, parse_body,
};
use nebula::text::find_text;

const SAMPLES: [&str; 12] = [
    "",
    "no head end",
    "\r\n\r\n",
    "HTTP/1.1 200 OK\r\nContent-Length: 2\r\n\r\n{}",
    "head\r\n\r\nbody\r\n\r\nmore\r\n\r\nyet more",
    "head\r\n\r\n",
    "\r\n\r\nbody",
    "a\r\n\r\n\r\n\r\nb",
    "a\r\n\r\n\r\nb",
    "a\r\n\rb\n\r\n",
    "ünïcode héad\r\n\r\nbödy 🙂\r\n\r\nrest",
    "\r\n\r\n\r\n\r\n\r\n",
];

#[test]
fn response_body_is_what_follows_the_first_empty_line() {
    for s in SAMPLES {
        let expected = match s.find("\r\n\r\n") {
            Some(i) => s[i + 4..].to_string(),
            None => s.to_string(),
        };
        assert_eq!(extract_body(s), expected, "{:?}", s);
    }
    assert_eq!(extract_body("HTTP/1.1 200 OK\r\n\r\n{\"ok\":true}"), "{\"ok\":true}");
}

#[test]
fn request_body_is_what_stands_between_the_first_two_empty_lines() {
    for s in SAMPLES {
        let expected = s.split("\r\n\r\n").nth(1).unwrap_or("");
        assert_eq!(parse_body(s), expected, "{:?}", s);
    }
    assert_eq!(parse_body("POST /v0/audit HTTP/1.1\r\n\r\n{\"a\":1}"), "{\"a\":1}");
    assert_eq!(parse_body("GET / HTTP/1.1\r\nHost: x\r\n"), "");
}

#[test]
fn texts_are_found_from_a_place_on() {
    assert_eq!(find_text("abcabc", "bc", 0), Some(1));
    assert_eq!(find_text("abcabc", "bc", 1), Some(1));
    assert_eq!(find_text("abcabc", "bc", 2), Some(4));
    assert_eq!(find_text("abcabc", "bc", 5), None);
    assert_eq!(find_text("abcabc", "", 6), Some(6));
    assert_eq!(find_text("abcabc", "x", 0), None);
    assert_eq!(find_text("", "", 0), Some(0));
    assert_eq!(find_text("", "a", 0), None);
    // Places count characters, not bytes.
    assert_eq!(find_text("ééx", "x", 0), Some(2));
    assert_eq!(find_text("aaa", "aa", 1), Some(1));
}

#[test]
fn responses_announce_the_length_of_the_body_in_bytes() {
    assert_eq!(
        http_response("200 OK", "{\"ok\":true}"),
        "HTTP/1.1 200 OK\r\nContent-Type: application/json\r\nContent-Length: 11\r\n\r\n{\"ok\":true}"
    );
    assert_eq!(
        http_response("404 Not Found", ""),
        "HTTP/1.1 404 Not Found\r\nContent-Type: application/json\r\nContent-Length: 0\r\n\r\n"
    );
    assert!(http_response("200 OK", "é").contains("Content-Length: 2\r\n"));
    // What was put together comes apart again.
    assert_eq!(extract_body(&http_response("200 OK", "{\"a\":\"b\"}")), "{\"a\":\"b\"}");
}

#[test]
fn requests_with_and_without_a_body() {
    assert_eq!(
        http_request("GET", "/v0/health", ""),
        "GET /v0/health HTTP/1.1\r\nHost: localhost\r\n\r\n"
    );
    assert_eq!(
        http_request("POST", "/v0/jobs", "{\"job_type\":\"brain\"}"),
        "POST /v0/jobs HTTP/1.1\r\nHost: localhost\r\nContent-Type: application/json\r\nContent-Length: 20\r\n\r\n{\"job_type\":\"brain\"}"
    );
    assert_eq!(parse_body(&http_request("POST", "/x", "{\"ü\":1}")), "{\"ü\":1}");
    assert_eq!(parse_body(&http_request("GET", "/x", "")), "");
}

#[test]
fn brain_jobs_go_to_the_brain() {
    for (job, brain, path) in [
        ("brain", true, "/v0/brain"),
        ("brain_proactive", true, "/v0/brain/proactive"),
        ("brain_dashboard", true, "/v0/brain/dashboard"),
        ("predict_next_state", false, "/v0/brain"),
        ("", false, "/v0/brain"),
        ("Brain", false, "/v0/brain"),
    ] {
        assert_eq!(is_brain_job(job), brain, "{}", job);
        assert_eq!(brain_path(job), path, "{}", job);
    }
    assert_eq!(job_id(0), "job_0");
    assert_eq!(job_id(1_700_000_000), "job_1700000000");
}

#[test]
fn jobs_are_posted_with_the_connection_to_be_closed() {
    assert_eq!(
        job_request("{\"job_type\":\"brain\"}"),
        "POST /v0/jobs HTTP/1.1\r\nHost: localhost\r\nContent-Type: application/json\r\nContent-Length: 20\r\nConnection: close\r\n\r\n{\"job_type\":\"brain\"}"
    );
    assert_eq!(parse_body(&job_request("{\"ü\":1}")), "{\"ü\":1}");
    assert!(job_request("").ends_with("Content-Length: 0\r\nConnection: close\r\n\r\n"));
}
