//! Counters in the Prometheus text format, and the responses that carry them.
use vstd::prelude::*;
use vstd::string::StringExecFns;
use vstd::utf8::encode_utf8;

use crate::pipeline::metrics::PipelineMetrics;
use crate::text::{decimal, i64_text, push_u64, signed_decimal, u64_text};

verus! {

/// What the metrics endpoint knows besides the counters.
#[derive(Debug, Clone, Copy, PartialEq, Eq, Structural)]
pub struct MetricsConfig {
    /// When the TLS certificate expires, in seconds since the epoch; 0 where there is none.
    pub tls_cert_expiry_secs: i64,
}

impl MetricsConfig {
    pub fn new() -> (r: Self)
        ensures
            r.tls_cert_expiry_secs == 0,
    {
        MetricsConfig { tls_cert_expiry_secs: 0 }
    }
}

impl Default for MetricsConfig {
    fn default() -> (r: Self)
        ensures
            r.tls_cert_expiry_secs == 0,
    {
        MetricsConfig::new()
    }
}

/// The two comment lines that introduce a metric.
pub open spec fn heading(name: Seq<char>, help: Seq<char>, kind: Seq<char>) -> Seq<char> {
    "# HELP "@ + name + " "@ + help + "\n# TYPE "@ + name + " "@ + kind + "\n"@
}

/// A metric with its one value.
pub open spec fn metric(
    name: Seq<char>,
    help: Seq<char>,
    kind: Seq<char>,
    value: Seq<char>,
) -> Seq<char> {
    heading(name, help, kind) + name + " "@ + value + "\n"@
}

fn push_heading(out: &mut String, name: &str, help: &str, kind: &str)
    ensures
        final(out)@ == old(out)@ + heading(name@, help@, kind@),
{
    out.append("# HELP ");
    out.append(name);
    out.append(" ");
    out.append(help);
    out.append("\n# TYPE ");
    out.append(name);
    out.append(" ");
    out.append(kind);
    out.append("\n");
    assert(out@ =~= old(out)@ + heading(name@, help@, kind@));
}

fn push_metric(out: &mut String, name: &str, help: &str, kind: &str, value: &str)
    ensures
        final(out)@ == old(out)@ + metric(name@, help@, kind@, value@),
{
    push_heading(out, name, help, kind);
    out.append(name);
    out.append(" ");
    out.append(value);
    out.append("\n");
    assert(out@ =~= old(out)@ + metric(name@, help@, kind@, value@));
}

/// A quotient rounded toward zero.
pub open spec fn toward_zero(a: int, b: int) -> int {
    if a >= 0 {
        a / b
    } else {
        -((-a) / b)
    }
}

/// Whole days until a point in time; negative once it has passed.
pub open spec fn days_remaining(expiry: int, now: int) -> int {
    toward_zero(expiry - now, 86400)
}

/// The counters of a pipeline in the Prometheus text format, and the certificate's expiry where
/// there is a certificate.
pub open spec fn prometheus_text(metrics: PipelineMetrics, expiry: int, now: int) -> Seq<char> {
    let counters = metric(
        "aeon_events_received_total"@,
        "Total events received from sources"@,
        "counter"@,
        decimal(metrics.events_received as nat),
    ) + metric(
        "aeon_events_processed_total"@,
        "Total events processed by processors"@,
        "counter"@,
        decimal(metrics.events_processed as nat),
    ) + metric(
        "aeon_outputs_sent_total"@,
        "Total outputs sent to sinks"@,
        "counter"@,
        decimal(metrics.outputs_sent as nat),
    );
    if expiry > 0 {
        counters + metric(
            "aeon_tls_cert_expiry_seconds"@,
            "TLS certificate expiry (Unix epoch seconds)"@,
            "gauge"@,
            signed_decimal(expiry),
        ) + metric(
            "aeon_tls_cert_days_remaining"@,
            "Days until TLS certificate expires"@,
            "gauge"@,
            signed_decimal(days_remaining(expiry, now)),
        )
    } else {
        counters
    }
}

fn days_until(expiry: i64, now: i64) -> (r: i64)
    requires
        expiry > 0,
        now >= 0,
    ensures
        r == days_remaining(expiry as int, now as int),
{
    if expiry >= now {
        (expiry - now) / 86400
    } else {
        -((now - expiry) / 86400)
    }
}

/// Formats the counters of a pipeline. `now` is in seconds since the epoch.
pub fn format_prometheus(metrics: &PipelineMetrics, config: &MetricsConfig, now: i64) -> (r: String)
    requires
        now >= 0,
    ensures
        r@ == prometheus_text(*metrics, config.tls_cert_expiry_secs as int, now as int),
{
    let mut out = String::new();
    let received = u64_text(metrics.events_received);
    let processed = u64_text(metrics.events_processed);
    let sent = u64_text(metrics.outputs_sent);
    push_metric(
        &mut out,
        "aeon_events_received_total",
        "Total events received from sources",
        "counter",
        received.as_str(),
    );
    assert(out@ =~= metric(
        "aeon_events_received_total"@,
        "Total events received from sources"@,
        "counter"@,
        received@,
    ));
    push_metric(
        &mut out,
        "aeon_events_processed_total",
        "Total events processed by processors",
        "counter",
        processed.as_str(),
    );
    push_metric(
        &mut out,
        "aeon_outputs_sent_total",
        "Total outputs sent to sinks",
        "counter",
        sent.as_str(),
    );
    let expiry = config.tls_cert_expiry_secs;
    if expiry > 0 {
        let at = i64_text(expiry);
        let days = i64_text(days_until(expiry, now));
        push_metric(
            &mut out,
            "aeon_tls_cert_expiry_seconds",
            "TLS certificate expiry (Unix epoch seconds)",
            "gauge",
            at.as_str(),
        );
        push_metric(
            &mut out,
            "aeon_tls_cert_days_remaining",
            "Days until TLS certificate expires",
            "gauge",
            days.as_str(),
        );
    }
    out
}

/// The bytes that may follow the path in a request: the end of the target or of the line, or the
/// beginning of a query.
pub open spec fn ends_path(byte: u8) -> bool {
    byte == 32 || byte == 63 || byte == 13 || byte == 10
}

/// Whether a request asks for the metrics: it is a GET, and the path is `/metrics` and no longer.
pub open spec fn asks_for_metrics(request: Seq<u8>) -> bool {
    let front = encode_utf8("GET /metrics"@);
    &&& front.is_prefix_of(request)
    &&& request.len() > front.len() ==> ends_path(request[front.len() as int])
}

fn is_metrics_request(request: &[u8]) -> (r: bool)
    ensures
        r == asks_for_metrics(request@),
{
    let prefix = "GET /metrics".as_bytes();
    if request.len() < prefix.len() {
        return false;
    }
    let mut i: usize = 0;
    while i < prefix.len()
        invariant
            i <= prefix@.len() <= request@.len(),
            prefix@ == encode_utf8("GET /metrics"@),
            forall|j: int| 0 <= j < i ==> prefix@[j] == request@[j],
        decreases prefix@.len() - i,
    {
        if prefix[i] != request[i] {
            assert(request@.take(prefix@.len() as int)[i as int] == request@[i as int]);
            return false;
        }
        i += 1;
    }
    assert(prefix@ =~= request@.take(prefix@.len() as int));
    if request.len() == prefix.len() {
        return true;
    }
    let next: u8 = request[prefix.len()];
    next == 32 || next == 63 || next == 13 || next == 10
}

/// A response with a body of plain text.
pub open spec fn http_response(status: Seq<char>, content_type: Seq<char>, body: Seq<char>) -> Seq<
    char,
> {
    "HTTP/1.1 "@ + status + "\r\nContent-Type: "@ + content_type + "\r\nContent-Length: "@
        + decimal(encode_utf8(body).len()) + "\r\nConnection: close\r\n\r\n"@ + body
}

fn frame_response(status: &str, content_type: &str, body: &str) -> (r: String)
    ensures
        r@ == http_response(status@, content_type@, body@),
{
    let mut out = "HTTP/1.1 ".to_owned();
    out.append(status);
    out.append("\r\nContent-Type: ");
    out.append(content_type);
    out.append("\r\nContent-Length: ");
    push_u64(&mut out, body.as_bytes().len() as u64);
    out.append("\r\nConnection: close\r\n\r\n");
    out.append(body);
    out
}

/// The type of the Prometheus text format.
pub open spec fn exposition_type() -> Seq<char> {
    "text/plain; version=0.0.4; charset=utf-8"@
}

/// What a request is answered.
pub open spec fn metrics_response(
    request: Seq<u8>,
    metrics: PipelineMetrics,
    expiry: int,
    now: int,
) -> Seq<char> {
    if asks_for_metrics(request) {
        http_response("200 OK"@, exposition_type(), prometheus_text(metrics, expiry, now))
    } else {
        http_response("404 Not Found"@, "text/plain"@, "Not Found\n"@)
    }
}

/// Answers a request: the metrics for `GET /metrics`, 404 for everything else, and nothing at all
/// where nothing was asked.
pub fn answer(request: &[u8], metrics: &PipelineMetrics, config: &MetricsConfig, now: i64) -> (r:
    Option<String>)
    requires
        now >= 0,
    ensures
        match r {
            None => request@.len() == 0,
            Some(text) => request@.len() > 0 && text@ == metrics_response(
                request@,
                *metrics,
                config.tls_cert_expiry_secs as int,
                now as int,
            ),
        },
{
    if request.len() == 0 {
        return None;
    }
    if is_metrics_request(request) {
        let body = format_prometheus(metrics, config, now);
        Some(
            frame_response("200 OK", "text/plain; version=0.0.4; charset=utf-8", body.as_str()),
        )
    } else {
        Some(frame_response("404 Not Found", "text/plain", "Not Found\n"))
    }
}

/// A counter that every pipeline has.
#[derive(Debug, Clone, Copy, PartialEq, Eq, Structural)]
pub enum Counter {
    Received,
    Processed,
    Sent,
    Acked,
    Failed,
    Retried,
    Checkpoints,
    PohEntries,
}

impl Counter {
    pub open spec fn name_text(self) -> Seq<char> {
        match self {
            Counter::Received => "aeon_pipeline_events_received_total"@,
            Counter::Processed => "aeon_pipeline_events_processed_total"@,
            Counter::Sent => "aeon_pipeline_outputs_sent_total"@,
            Counter::Acked => "aeon_pipeline_outputs_acked_total"@,
            Counter::Failed => "aeon_pipeline_events_failed_total"@,
            Counter::Retried => "aeon_pipeline_events_retried_total"@,
            Counter::Checkpoints => "aeon_pipeline_checkpoints_written_total"@,
            Counter::PohEntries => "aeon_pipeline_poh_entries_total"@,
        }
    }

    pub open spec fn help_text(self) -> Seq<char> {
        match self {
            Counter::Received => "Events received by a pipeline's source"@,
            Counter::Processed => "Events processed by a pipeline's processor"@,
            Counter::Sent => "Outputs the pipeline handed to its sink"@,
            Counter::Acked =>
                "Outputs the downstream system confirmed (broker ack, HTTP 2xx, fsync)"@,
            Counter::Failed => "Events permanently failed (retry-exhausted or skip-to-dlq)"@,
            Counter::Retried => "Individual retry attempts"@,
            Counter::Checkpoints => "Checkpoint records appended"@,
            Counter::PohEntries => "PoH chain entries appended (per batch)"@,
        }
    }

    /// The counter's value.
    pub open spec fn of(self, m: PipelineMetrics) -> u64 {
        match self {
            Counter::Received => m.events_received,
            Counter::Processed => m.events_processed,
            Counter::Sent => m.outputs_sent,
            Counter::Acked => m.outputs_acked,
            Counter::Failed => m.events_failed,
            Counter::Retried => m.events_retried,
            Counter::Checkpoints => m.checkpoints_written,
            Counter::PohEntries => m.poh_entries,
        }
    }

    pub fn name(self) -> (r: &'static str)
        ensures
            r@ == self.name_text(),
    {
        match self {
            Counter::Received => "aeon_pipeline_events_received_total",
            Counter::Processed => "aeon_pipeline_events_processed_total",
            Counter::Sent => "aeon_pipeline_outputs_sent_total",
            Counter::Acked => "aeon_pipeline_outputs_acked_total",
            Counter::Failed => "aeon_pipeline_events_failed_total",
            Counter::Retried => "aeon_pipeline_events_retried_total",
            Counter::Checkpoints => "aeon_pipeline_checkpoints_written_total",
            Counter::PohEntries => "aeon_pipeline_poh_entries_total",
        }
    }

    pub fn help(self) -> (r: &'static str)
        ensures
            r@ == self.help_text(),
    {
        match self {
            Counter::Received => "Events received by a pipeline's source",
            Counter::Processed => "Events processed by a pipeline's processor",
            Counter::Sent => "Outputs the pipeline handed to its sink",
            Counter::Acked =>
                "Outputs the downstream system confirmed (broker ack, HTTP 2xx, fsync)",
            Counter::Failed => "Events permanently failed (retry-exhausted or skip-to-dlq)",
            Counter::Retried => "Individual retry attempts",
            Counter::Checkpoints => "Checkpoint records appended",
            Counter::PohEntries => "PoH chain entries appended (per batch)",
        }
    }

    pub fn value(self, m: &PipelineMetrics) -> (r: u64)
        ensures
            r == self.of(*m),
    {
        match self {
            Counter::Received => m.events_received,
            Counter::Processed => m.events_processed,
            Counter::Sent => m.outputs_sent,
            Counter::Acked => m.outputs_acked,
            Counter::Failed => m.events_failed,
            Counter::Retried => m.events_retried,
            Counter::Checkpoints => m.checkpoints_written,
            Counter::PohEntries => m.poh_entries,
        }
    }
}

/// One pipeline's sample of a counter.
pub open spec fn sample(c: Counter, pipeline: Seq<char>, m: PipelineMetrics) -> Seq<char> {
    c.name_text() + "{pipeline=\""@ + pipeline + "\"} "@ + decimal(c.of(m) as nat) + "\n"@
}

/// The samples of a counter, one for each pipeline, in order.
pub open spec fn samples(c: Counter, pipelines: Seq<(String, PipelineMetrics)>) -> Seq<char>
    decreases pipelines.len(),
{
    if pipelines.len() == 0 {
        seq![]
    } else {
        samples(c, pipelines.drop_last()) + sample(c, pipelines.last().0@, pipelines.last().1)
    }
}

/// A counter over all pipelines.
pub open spec fn family(c: Counter, pipelines: Seq<(String, PipelineMetrics)>) -> Seq<char> {
    heading(c.name_text(), c.help_text(), "counter"@) + samples(c, pipelines)
}

/// All counters over all pipelines.
pub open spec fn exposition(pipelines: Seq<(String, PipelineMetrics)>) -> Seq<char> {
    family(Counter::Received, pipelines) + family(Counter::Processed, pipelines) + family(
        Counter::Sent,
        pipelines,
    ) + family(Counter::Acked, pipelines) + family(Counter::Failed, pipelines) + family(
        Counter::Retried,
        pipelines,
    ) + family(Counter::Checkpoints, pipelines) + family(Counter::PohEntries, pipelines)
}

fn push_family(out: &mut String, c: Counter, pipelines: &Vec<(String, PipelineMetrics)>)
    ensures
        final(out)@ == old(out)@ + family(c, pipelines@),
{
    let ghost before = out@;
    push_heading(out, c.name(), c.help(), "counter");
    let ghost head = heading(c.name_text(), c.help_text(), "counter"@);
    let mut i: usize = 0;
    proof {
        assert(pipelines@.take(0) =~= seq![]);
        assert(out@ =~= before + (head + samples(c, pipelines@.take(0))));
    }
    while i < pipelines.len()
        invariant
            i <= pipelines@.len(),
            out@ == before + (head + samples(c, pipelines@.take(i as int))),
        decreases pipelines@.len() - i,
    {
        let ghost start = out@;
        out.append(c.name());
        out.append("{pipeline=\"");
        out.append(pipelines[i].0.as_str());
        out.append("\"} ");
        push_u64(out, c.value(&pipelines[i].1));
        out.append("\n");
        proof {
            let next = pipelines@.take(i + 1);
            assert(next.drop_last() =~= pipelines@.take(i as int));
            assert(next.last() == pipelines@[i as int]);
            assert(out@ =~= start + sample(c, pipelines@[i as int].0@, pipelines@[i as int].1));
            assert(out@ =~= before + (head + samples(c, next)));
        }
        i += 1;
    }
    proof {
        assert(pipelines@.take(pipelines@.len() as int) =~= pipelines@);
    }
}

/// Formats all counters of all pipelines, followed by the metrics of the stores behind them, and
/// by the cluster's own metrics where there is a cluster.
pub fn metrics_prometheus(
    pipelines: &Vec<(String, PipelineMetrics)>,
    stores: &str,
    cluster: Option<&str>,
) -> (r: String)
    ensures
        r@ == exposition(pipelines@) + stores@ + (match cluster {
            Some(text) => text@,
            None => seq![],
        }),
{
    let mut out = String::new();
    push_family(&mut out, Counter::Received, pipelines);
    assert(out@ =~= family(Counter::Received, pipelines@));
    push_family(&mut out, Counter::Processed, pipelines);
    push_family(&mut out, Counter::Sent, pipelines);
    push_family(&mut out, Counter::Acked, pipelines);
    push_family(&mut out, Counter::Failed, pipelines);
    push_family(&mut out, Counter::Retried, pipelines);
    push_family(&mut out, Counter::Checkpoints, pipelines);
    push_family(&mut out, Counter::PohEntries, pipelines);
    out.append(stores);
    match cluster {
        Some(text) => out.append(text),
        None => {
            assert(out@ =~= exposition(pipelines@) + stores@ + seq![]);
        },
    }
    out
}

/// Days are counted whole, toward the moment of expiry: of the time that is left or has passed,
/// less than a day is not counted.
pub proof fn law_days_are_whole(expiry: int, now: int)
    ensures
        ({
            let days = days_remaining(expiry, now);
            &&& expiry >= now ==> days >= 0 && days * 86400 <= expiry - now < (days + 1) * 86400
            &&& expiry < now ==> days <= 0 && -days * 86400 <= now - expiry < (-days + 1) * 86400
        }),
{
}

/// Metrics are asked for by a GET of their path and no longer one: the request ends there, or a
/// space, a question mark or the end of the line follows.
pub proof fn law_which_requests_ask_for_metrics(rest: Seq<u8>, other: Seq<u8>)
    requires
        forall|tail: Seq<u8>| other != #[trigger] (encode_utf8("GET /metrics"@) + tail),
    ensures
        asks_for_metrics(encode_utf8("GET /metrics"@) + rest) <==> {
            ||| rest.len() == 0
            ||| rest[0] == ' ' as u8
            ||| rest[0] == '?' as u8
            ||| rest[0] == '\r' as u8
            ||| rest[0] == '\n' as u8
        },
        !asks_for_metrics(other),
{
    let front = encode_utf8("GET /metrics"@);
    let request = front + rest;
    assert(request.take(front.len() as int) =~= front);
    if rest.len() > 0 {
        assert(request[front.len() as int] == rest[0]);
    }
    if asks_for_metrics(other) {
        assert(other =~= front + other.skip(front.len() as int));
    }
}

/// Whether a text holds another somewhere.
pub open spec fn holds(text: Seq<char>, part: Seq<char>) -> bool {
    exists|i: int|
        0 <= i && i + part.len() <= text.len() && #[trigger] text.subrange(i, i + part.len())
            == part
}

proof fn lemma_holds(front: Seq<char>, part: Seq<char>, back: Seq<char>)
    ensures
        holds(front + part + back, part),
{
    let text = front + part + back;
    let i = front.len() as int;
    assert(text.subrange(i, i + part.len()) =~= part);
}

proof fn lemma_either(a: Seq<char>, b: Seq<char>, part: Seq<char>)
    requires
        holds(a, part) || holds(b, part),
    ensures
        holds(a + b, part),
{
    if holds(a, part) {
        let i = choose|i: int|
            0 <= i && i + part.len() <= a.len() && #[trigger] a.subrange(i, i + part.len()) == part;
        assert((a + b).subrange(i, i + part.len()) =~= a.subrange(i, i + part.len()));
    } else {
        let i = choose|i: int|
            0 <= i && i + part.len() <= b.len() && #[trigger] b.subrange(i, i + part.len()) == part;
        let j = a.len() + i;
        assert((a + b).subrange(j, j + part.len()) =~= b.subrange(i, i + part.len()));
    }
}

/// A response begins with the status, ends with the body, and says of the body what it is and how
/// many bytes it has.
pub proof fn law_a_response_is_framed(
    status: Seq<char>,
    content_type: Seq<char>,
    body: Seq<char>,
)
    ensures
        ({
            let r = http_response(status, content_type, body);
            &&& ("HTTP/1.1 "@ + status + "\r\n"@).is_prefix_of(r)
            &&& ("\r\n\r\n"@ + body).is_suffix_of(r)
            &&& holds(r, "\r\nContent-Type: "@ + content_type + "\r\n"@)
            &&& holds(r, "\r\nContent-Length: "@ + decimal(encode_utf8(body).len()) + "\r\n"@)
        }),
{
    reveal_strlit("\r\n");
    reveal_strlit("\r\n\r\n");
    reveal_strlit("\r\nContent-Type: ");
    reveal_strlit("\r\nContent-Length: ");
    reveal_strlit("\r\nConnection: close\r\n\r\n");
    let r = http_response(status, content_type, body);
    let length = decimal(encode_utf8(body).len());
    let start = "HTTP/1.1 "@ + status;
    let kind = "\r\nContent-Type: "@ + content_type + "\r\n"@;
    let size = "\r\nContent-Length: "@ + length + "\r\n"@;
    let head = start + "\r\n"@;
    assert(r.take(head.len() as int) =~= head);
    let tail = "\r\n\r\n"@ + body;
    assert(r.skip(r.len() - tail.len()) =~= tail);
    assert(r.subrange(r.len() - tail.len(), r.len() as int) =~= tail);
    let i = start.len() as int;
    assert(r.subrange(i, i + kind.len()) =~= kind);
    let j = (start + "\r\nContent-Type: "@ + content_type).len() as int;
    assert(r.subrange(j, j + size.len()) =~= size);
}

/// The line of a metric gives its name and its value, and two lines before it what it is.
pub proof fn law_a_metric_has_its_line(
    name: Seq<char>,
    help: Seq<char>,
    kind: Seq<char>,
    value: Seq<char>,
)
    ensures
        (name + " "@ + value + "\n"@).is_suffix_of(metric(name, help, kind, value)),
        holds(metric(name, help, kind, value), name + " "@ + value + "\n"@),
        holds(heading(name, help, kind), "# HELP "@ + name + " "@ + help + "\n"@),
        holds(heading(name, help, kind), "# TYPE "@ + name + " "@ + kind + "\n"@),
        heading(name, help, kind).is_prefix_of(metric(name, help, kind, value)),
{
    reveal_strlit("\n");
    reveal_strlit("\n# TYPE ");
    reveal_strlit("# TYPE ");
    let line = name + " "@ + value + "\n"@;
    let head = heading(name, help, kind);
    let all = metric(name, help, kind, value);
    assert(all.skip(head.len() as int) =~= line);
    assert(all.subrange(all.len() - line.len(), all.len() as int) =~= line);
    assert(all.take(head.len() as int) =~= head);
    let at = head.len() as int;
    assert(all.subrange(at, at + line.len()) =~= line);
    let helped = "# HELP "@ + name + " "@ + help + "\n"@;
    let typed = "# TYPE "@ + name + " "@ + kind + "\n"@;
    assert(head.subrange(0, 0int + helped.len()) =~= helped);
    let i = head.len() - typed.len();
    assert(head.subrange(i, i + typed.len()) =~= typed);
}

/// The text of a pipeline's counters gives each of them with its value.
pub proof fn law_each_counter_is_given(metrics: PipelineMetrics, expiry: int, now: int)
    ensures
        ({
            let text = prometheus_text(metrics, expiry, now);
            let line = |name: Seq<char>, value: Seq<char>| name + " "@ + value + "\n"@;
            &&& holds(
                text,
                line("aeon_events_received_total"@, decimal(metrics.events_received as nat)),
            )
            &&& holds(
                text,
                line("aeon_events_processed_total"@, decimal(metrics.events_processed as nat)),
            )
            &&& holds(text, line("aeon_outputs_sent_total"@, decimal(metrics.outputs_sent as nat)))
            &&& expiry > 0 ==> holds(
                text,
                line("aeon_tls_cert_expiry_seconds"@, signed_decimal(expiry)),
            )
            &&& expiry > 0 ==> holds(
                text,
                line(
                    "aeon_tls_cert_days_remaining"@,
                    signed_decimal(days_remaining(expiry, now)),
                ),
            )
            &&& expiry <= 0 ==> text == prometheus_text(metrics, 0, 0)
            &&& expiry > 0 ==> prometheus_text(metrics, 0, 0).is_prefix_of(text)
        }),
{
    let name_a = "aeon_events_received_total"@;
    let name_b = "aeon_events_processed_total"@;
    let name_c = "aeon_outputs_sent_total"@;
    let name_d = "aeon_tls_cert_expiry_seconds"@;
    let name_e = "aeon_tls_cert_days_remaining"@;
    let help_a = "Total events received from sources"@;
    let help_b = "Total events processed by processors"@;
    let help_c = "Total outputs sent to sinks"@;
    let help_d = "TLS certificate expiry (Unix epoch seconds)"@;
    let help_e = "Days until TLS certificate expires"@;
    let value_a = decimal(metrics.events_received as nat);
    let value_b = decimal(metrics.events_processed as nat);
    let value_c = decimal(metrics.outputs_sent as nat);
    let value_d = signed_decimal(expiry);
    let value_e = signed_decimal(days_remaining(expiry, now));
    law_a_metric_has_its_line(name_a, help_a, "counter"@, value_a);
    law_a_metric_has_its_line(name_b, help_b, "counter"@, value_b);
    law_a_metric_has_its_line(name_c, help_c, "counter"@, value_c);
    law_a_metric_has_its_line(name_d, help_d, "gauge"@, value_d);
    law_a_metric_has_its_line(name_e, help_e, "gauge"@, value_e);
    let a = metric(name_a, help_a, "counter"@, value_a);
    let b = metric(name_b, help_b, "counter"@, value_b);
    let c = metric(name_c, help_c, "counter"@, value_c);
    let d = metric(name_d, help_d, "gauge"@, value_d);
    let e = metric(name_e, help_e, "gauge"@, value_e);
    let line_a = name_a + " "@ + value_a + "\n"@;
    let line_b = name_b + " "@ + value_b + "\n"@;
    let line_c = name_c + " "@ + value_c + "\n"@;
    let line_d = name_d + " "@ + value_d + "\n"@;
    let line_e = name_e + " "@ + value_e + "\n"@;
    lemma_either(a, b, line_a);
    lemma_either(a, b, line_b);
    lemma_either(a + b, c, line_a);
    lemma_either(a + b, c, line_b);
    lemma_either(a + b, c, line_c);
    let base = a + b + c;
    if expiry > 0 {
        lemma_either(base, d, line_a);
        lemma_either(base, d, line_b);
        lemma_either(base, d, line_c);
        lemma_either(base, d, line_d);
        lemma_either(base + d, e, line_a);
        lemma_either(base + d, e, line_b);
        lemma_either(base + d, e, line_c);
        lemma_either(base + d, e, line_d);
        lemma_either(base + d, e, line_e);
        assert((base + d + e).take(base.len() as int) =~= base);
    }
}

/// The samples of a counter are those of the pipelines, in order, one for each.
pub proof fn law_samples_join(
    c: Counter,
    a: Seq<(String, PipelineMetrics)>,
    b: Seq<(String, PipelineMetrics)>,
    one: (String, PipelineMetrics),
)
    ensures
        samples(c, Seq::empty()) == Seq::<char>::empty(),
        samples(c, seq![one]) == c.name_text() + "{pipeline=\""@ + one.0@ + "\"} "@ + decimal(
            c.of(one.1) as nat,
        ) + "\n"@,
        samples(c, a + b) == samples(c, a) + samples(c, b),
    decreases b.len(),
{
    let single = seq![one];
    assert(single.drop_last() =~= Seq::<(String, PipelineMetrics)>::empty());
    assert(single.last() == one);
    assert(samples(c, single.drop_last()) =~= Seq::<char>::empty());
    assert(samples(c, single) =~= sample(c, one.0@, one.1));
    if b.len() == 0 {
        assert(a + b =~= a);
        assert(samples(c, a) + samples(c, b) =~= samples(c, a));
    } else {
        assert((a + b).drop_last() =~= a + b.drop_last());
        assert((a + b).last() == b.last());
        law_samples_join(c, a, b.drop_last(), one);
        assert(samples(c, a + b) =~= samples(c, a) + samples(c, b));
    }
}

/// Each counter has its own name and counts its own kind of thing.
pub proof fn law_counters_are_told_apart(c: Counter, m: PipelineMetrics)
    ensures
        c is Received ==> c.of(m) == m.events_received && c.name_text()
            == "aeon_pipeline_events_received_total"@,
        c is Processed ==> c.of(m) == m.events_processed && c.name_text()
            == "aeon_pipeline_events_processed_total"@,
        c is Sent ==> c.of(m) == m.outputs_sent && c.name_text()
            == "aeon_pipeline_outputs_sent_total"@,
        c is Acked ==> c.of(m) == m.outputs_acked && c.name_text()
            == "aeon_pipeline_outputs_acked_total"@,
        c is Failed ==> c.of(m) == m.events_failed && c.name_text()
            == "aeon_pipeline_events_failed_total"@,
        c is Retried ==> c.of(m) == m.events_retried && c.name_text()
            == "aeon_pipeline_events_retried_total"@,
        c is Checkpoints ==> c.of(m) == m.checkpoints_written && c.name_text()
            == "aeon_pipeline_checkpoints_written_total"@,
        c is PohEntries ==> c.of(m) == m.poh_entries && c.name_text()
            == "aeon_pipeline_poh_entries_total"@,
{
}

/// No two counters share a description.
pub proof fn law_counters_are_described_apart(a: Counter, b: Counter)
    requires
        a.help_text() == b.help_text(),
    ensures
        a == b,
{
    reveal_strlit("Events received by a pipeline's source");
    reveal_strlit("Events processed by a pipeline's processor");
    reveal_strlit("Outputs the pipeline handed to its sink");
    reveal_strlit("Outputs the downstream system confirmed (broker ack, HTTP 2xx, fsync)");
    reveal_strlit("Events permanently failed (retry-exhausted or skip-to-dlq)");
    reveal_strlit("Individual retry attempts");
    reveal_strlit("Checkpoint records appended");
    reveal_strlit("PoH chain entries appended (per batch)");
    assert("Events received by a pipeline's source"@.len() == 38);
    assert("Events processed by a pipeline's processor"@.len() == 42);
    assert("Outputs the pipeline handed to its sink"@.len() == 39);
    assert("Outputs the downstream system confirmed (broker ack, HTTP 2xx, fsync)"@.len() == 69);
    assert("Events permanently failed (retry-exhausted or skip-to-dlq)"@.len() == 58);
    assert("Individual retry attempts"@.len() == 25);
    assert("Checkpoint records appended"@.len() == 27);
    assert("PoH chain entries appended (per batch)"@.len() == 38);
    assert("Events received by a pipeline's source"@[0] == 'E');
    assert("PoH chain entries appended (per batch)"@[0] == 'P');
}

/// Every counter is given for every pipeline: what is said of all holds the line of each.
pub proof fn law_every_pipeline_is_counted(
    c: Counter,
    pipelines: Seq<(String, PipelineMetrics)>,
    i: int,
)
    requires
        0 <= i < pipelines.len(),
    ensures
        holds(
            exposition(pipelines),
            c.name_text() + "{pipeline=\""@ + pipelines[i].0@ + "\"} "@ + decimal(
                c.of(pipelines[i].1) as nat,
            ) + "\n"@,
        ),
        holds(
            exposition(pipelines),
            "# TYPE "@ + c.name_text() + " "@ + "counter"@ + "\n"@,
        ),
{
    let one = pipelines[i];
    let line = c.name_text() + "{pipeline=\""@ + one.0@ + "\"} "@ + decimal(c.of(one.1) as nat)
        + "\n"@;
    let a = pipelines.take(i);
    let b = pipelines.skip(i + 1);
    assert(pipelines =~= a + seq![one] + b);
    law_samples_join(c, a, seq![one], one);
    law_samples_join(c, a + seq![one], b, one);
    lemma_holds(samples(c, a), line, samples(c, b));
    let head = heading(c.name_text(), c.help_text(), "counter"@);
    let all = samples(c, pipelines);
    let none = Seq::<char>::empty();
    lemma_either(head, all, line);
    let typed = "# TYPE "@ + c.name_text() + " "@ + "counter"@ + "\n"@;
    law_a_metric_has_its_line(c.name_text(), c.help_text(), "counter"@, none);
    lemma_either(head, all, typed);
    lemma_family(c, pipelines, line);
    lemma_family(c, pipelines, typed);
}

proof fn lemma_family(c: Counter, p: Seq<(String, PipelineMetrics)>, part: Seq<char>)
    requires
        holds(family(c, p), part),
    ensures
        holds(exposition(p), part),
{
    let f1 = family(Counter::Received, p);
    let f2 = family(Counter::Processed, p);
    let f3 = family(Counter::Sent, p);
    let f4 = family(Counter::Acked, p);
    let f5 = family(Counter::Failed, p);
    let f6 = family(Counter::Retried, p);
    let f7 = family(Counter::Checkpoints, p);
    let f8 = family(Counter::PohEntries, p);
    if c is Received || c is Processed {
        lemma_either(f1, f2, part);
    }
    if c is Received || c is Processed || c is Sent {
        lemma_either(f1 + f2, f3, part);
    }
    if !(c is Failed || c is Retried || c is Checkpoints || c is PohEntries) {
        lemma_either(f1 + f2 + f3, f4, part);
    }
    if !(c is Retried || c is Checkpoints || c is PohEntries) {
        lemma_either(f1 + f2 + f3 + f4, f5, part);
    }
    if !(c is Checkpoints || c is PohEntries) {
        lemma_either(f1 + f2 + f3 + f4 + f5, f6, part);
    }
    if c !is PohEntries {
        lemma_either(f1 + f2 + f3 + f4 + f5 + f6, f7, part);
    }
    lemma_either(f1 + f2 + f3 + f4 + f5 + f6 + f7, f8, part);
}

/// Nothing but the counters is exposed, and each of them once: the text is as long as their
/// headings and their samples.
pub proof fn law_nothing_else_is_exposed(pipelines: Seq<(String, PipelineMetrics)>, c: Counter)
    ensures
        family(c, pipelines).len() == heading(c.name_text(), c.help_text(), "counter"@).len()
            + samples(c, pipelines).len(),
        exposition(pipelines).len() == family(Counter::Received, pipelines).len() + family(
            Counter::Processed,
            pipelines,
        ).len() + family(Counter::Sent, pipelines).len() + family(Counter::Acked, pipelines).len()
            + family(Counter::Failed, pipelines).len() + family(Counter::Retried, pipelines).len()
            + family(Counter::Checkpoints, pipelines).len() + family(
            Counter::PohEntries,
            pipelines,
        ).len(),
{
}

/// A request for the metrics is answered with them, any other with a refusal.
pub proof fn law_how_requests_are_answered(
    request: Seq<u8>,
    metrics: PipelineMetrics,
    expiry: int,
    now: int,
)
    ensures
        asks_for_metrics(request) ==> metrics_response(request, metrics, expiry, now)
            == http_response(
            "200 OK"@,
            "text/plain; version=0.0.4; charset=utf-8"@,
            prometheus_text(metrics, expiry, now),
        ),
        !asks_for_metrics(request) ==> metrics_response(request, metrics, expiry, now)
            == http_response("404 Not Found"@, "text/plain"@, "Not Found\n"@),
{
}

} // verus!
