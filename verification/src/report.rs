//! Reports on the bus: what the relay publishes about a forwarded result,
//! and about the candidates of a message when diagnosis asks for them. The
//! topics and payloads are computed here; publishing is left to the caller.

use crate::flatten::read_payload;
use crate::normalize::normalized;
use crate::processor::{candidates_of, processed, Forward, MiniserverDataProcessor};
use vstd::prelude::*;

verus! {

/// The text of the JSON object that has the string `text` under `text_key`
/// and the number `number` under `number_key`, as `serde_json` writes it:
/// without white space, and with what JSON wants escaped in a string escaped.
pub uninterp spec fn json_object_text(
    text_key: Seq<char>,
    text: Seq<char>,
    number_key: Seq<char>,
    number: int,
) -> Seq<char>;

/// Trusted: a `serde_json::Map` in which `text` was inserted under
/// `text_key` and then `number` under `number_key`, written by the `Display`
/// of `serde_json::Value`, is the named text [`json_object_text`] of the
/// four.
#[verifier::external_body]
fn write_json_object(text_key: &str, text: &str, number_key: &str, number: i32) -> (out: String)
    ensures
        out@ == json_object_text(text_key@, text@, number_key@, number as int),
{
    let mut object = serde_json::Map::new();
    object.insert(text_key.to_owned(), serde_json::Value::from(text));
    object.insert(number_key.to_owned(), serde_json::Value::from(number));
    serde_json::Value::Object(object).to_string()
}

/// The topic of a report of the given kind about `topic`: the base topic,
/// the kind, and the normalised topic, with a `/` between them.
pub open spec fn report_topic(base: Seq<char>, kind: Seq<char>, topic: Seq<char>) -> Seq<char> {
    base + seq!['/'] + kind + seq!['/'] + normalized(topic)
}

/// The payload of the report on a forwarded result: the JSON object with
/// the value under `value` and the answer code under `http_code`.
pub open spec fn forwarded_payload(value: Seq<char>, http_code: int) -> Seq<char> {
    json_object_text("value"@, value, "http_code"@, http_code)
}

/// The reports on the candidates of a message: one for each candidate, on
/// the report topic of its topic, with its value as it is.
pub open spec fn processed_reports(base: Seq<char>, candidates: Seq<(Seq<char>, Seq<char>)>) -> Seq<
    (Seq<char>, Seq<char>),
> {
    Seq::new(
        candidates.len(),
        |i: int| (report_topic(base, "processedtopics"@, candidates[i].0), candidates[i].1),
    )
}

impl MiniserverDataProcessor {
    /// The topic of a report of the given kind about `topic`.
    pub fn report_topic_for(&self, kind: &str, topic: &str) -> (out: String)
        ensures
            out@ == report_topic(self.config().general.base_topic@, kind@, topic@),
    {
        let mut out = self.base_topic().to_owned();
        out.push('/');
        out.append(kind);
        out.push('/');
        let flat = self.normalize_topic(topic);
        out.append(flat.as_str());
        out
    }

    /// The report on a forwarded result: the topic under `forwardedtopics`
    /// and the payload that names the value and the answer code of the
    /// receiver.
    pub fn publish_forwarded_topic(&self, topic: &str, value: &str, http_code: i32) -> (report: (
        String,
        String,
    ))
        ensures
            report.0@ == report_topic(
                self.config().general.base_topic@,
                "forwardedtopics"@,
                topic@,
            ),
            report.1@ == forwarded_payload(value@, http_code as int),
    {
        let mqtt_topic = self.report_topic_for("forwardedtopics", topic);
        (mqtt_topic, write_json_object("value", value, "http_code", http_code))
    }

    /// The reports on the candidates of a message, where the configuration
    /// asks for them now, and none where it does not.
    pub fn processed_topic_reports(&self, candidates: &Vec<(String, String)>) -> (reports: Vec<
        (String, String),
    >)
        ensures
            reports.deep_view() == if self.config().debug.publish_processed_topics {
                processed_reports(self.config().general.base_topic@, candidates.deep_view())
            } else {
                Seq::empty()
            },
    {
        let mut reports: Vec<(String, String)> = Vec::new();
        assert(reports.deep_view() =~= Seq::empty());
        if !self.publishes_processed_topics() {
            return reports;
        }
        let ghost base = self.config().general.base_topic@;
        let ghost all = candidates.deep_view();
        let mut i: usize = 0;
        while i < candidates.len()
            invariant
                i <= candidates.len(),
                all == candidates.deep_view(),
                base == self.config().general.base_topic@,
                reports.deep_view() == processed_reports(base, all).take(i as int),
            decreases candidates.len() - i,
        {
            let ghost before = reports.deep_view();
            let topic = self.report_topic_for("processedtopics", candidates[i].0.as_str());
            let value = candidates[i].1.clone();
            proof {
                assert(all[i as int] == (candidates[i as int].0@, candidates[i as int].1@));
                assert(processed_reports(base, all).take(i + 1) =~= processed_reports(
                    base,
                    all,
                ).take(i as int).push((topic@, value@)));
            }
            reports.push((topic, value));
            assert(reports.deep_view() =~= before.push((topic@, value@)));
            i = i + 1;
        }
        assert(processed_reports(base, all).take(candidates.len() as int) =~= processed_reports(
            base,
            all,
        ));
        reports
    }

    /// What there is to do about a message: the reports on its candidates,
    /// where the configuration asks for them now, and what is forwarded of
    /// it. The candidates are reported as they are before the whitelist and
    /// the filters are asked.
    pub fn process_data_with_reports(&self, topic: &str, message: &str) -> (out: (
        Vec<(String, String)>,
        Vec<Forward>,
    ))
        ensures
            out.0.deep_view() == if self.config().debug.publish_processed_topics {
                processed_reports(
                    self.config().general.base_topic@,
                    candidates_of(
                        self.subscription(),
                        self.config().processing.expand_json,
                        topic@,
                        message@,
                        read_payload(message@),
                    ),
                )
            } else {
                Seq::empty()
            },
            out.1.deep_view() == processed(
                self.subscription(),
                self.blocked(),
                self.listed(),
                self.config().processing.expand_json,
                topic@,
                message@,
                read_payload(message@),
            ),
    {
        let candidates = self.candidates(topic, message);
        let reports = self.processed_topic_reports(&candidates);
        (reports, self.select_forwards(candidates))
    }
}

} // verus!
