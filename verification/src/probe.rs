//! What a run of the tool amounts to: the report it printed, or the way
//! it failed.

use vstd::prelude::*;
use crate::json::{
    content, contents, document, elements, is_object, member, member_of, parse, text, JsonValue,
};
use crate::literal::{is_literal, is_literal_text};

verus! {

/// One stream of the media. Nothing of it is read but that it is there.
#[derive(Debug, PartialEq, Eq)]
pub struct Stream {}

/// What the report says of the container.
#[derive(Debug, PartialEq, Eq)]
pub struct Format {
    /// The length of the media in seconds, in the tool's own words: a
    /// number in the notation of [`crate::literal`].
    pub duration: String,
}

/// The report of one run of the tool.
#[derive(Debug, PartialEq, Eq)]
pub struct FFProbe {
    pub streams: Vec<Stream>,
    pub format: Format,
}

/// The ways in which a probe fails.
#[derive(Debug, PartialEq, Eq)]
pub enum FFProbeError {
    /// The tool could not be started, or what it printed could not be
    /// collected; with the system's word on it.
    Io(String),
    /// The tool ended well, but what it printed is no report; with the
    /// reason.
    Json(String),
    /// The tool ended badly; with its exit code, if it left one.
    Process(Option<i32>),
}

/// How one attempt to run the tool ended.
#[derive(Debug, PartialEq, Eq)]
pub enum Attempt {
    /// The tool could not be started, or what it printed could not be
    /// collected; with the system's word on it.
    Failed(String),
    /// The tool ran and ended.
    Exited {
        /// Its exit code, if it left one.
        code: Option<i32>,
        /// All it wrote to its standard output.
        stdout: Vec<u8>,
    },
}

/// How an attempt ended, as a value.
pub enum Ending {
    Failed(Seq<char>),
    Exited { code: Option<i32>, stdout: Seq<u8> },
}

/// A report as a value: its streams and the text of its duration.
pub struct Report {
    pub streams: Seq<Stream>,
    pub duration: Seq<char>,
}

/// A failure as a value.
pub enum Failure {
    Io(Seq<char>),
    Json(Seq<char>),
    Process(Option<i32>),
}

impl View for Attempt {
    type V = Ending;

    open spec fn view(&self) -> Ending {
        match *self {
            Attempt::Failed(why) => Ending::Failed(why@),
            Attempt::Exited { code, stdout } => Ending::Exited { code, stdout: stdout@ },
        }
    }
}

impl View for FFProbe {
    type V = Report;

    open spec fn view(&self) -> Report {
        Report { streams: self.streams@, duration: self.format.duration@ }
    }
}

impl View for FFProbeError {
    type V = Failure;

    open spec fn view(&self) -> Failure {
        match *self {
            FFProbeError::Io(why) => Failure::Io(why@),
            FFProbeError::Json(why) => Failure::Json(why@),
            FFProbeError::Process(code) => Failure::Process(code),
        }
    }
}

impl Format {
    /// The duration is a number.
    pub open spec fn well_formed(&self) -> bool {
        is_literal(self.duration@)
    }
}

impl FFProbe {
    /// The format is well formed.
    pub open spec fn well_formed(&self) -> bool {
        self.format.well_formed()
    }
}

/// The result of a probe as a value.
pub open spec fn seen(result: Result<FFProbe, FFProbeError>) -> Result<Report, Failure> {
    match result {
        Ok(probe) => Ok(probe@),
        Err(error) => Err(error@),
    }
}

pub const NOT_AN_OBJECT: &'static str = "the report is not an object";

pub const NO_STREAMS: &'static str = "missing field `streams`";

pub const STREAMS_NOT_AN_ARRAY: &'static str = "field `streams` is not an array";

pub const STREAM_NOT_AN_OBJECT: &'static str = "a stream is not an object";

pub const NO_FORMAT: &'static str = "missing field `format`";

pub const FORMAT_NOT_AN_OBJECT: &'static str = "field `format` is not an object";

pub const NO_DURATION: &'static str = "missing field `duration`";

pub const DURATION_NOT_A_STRING: &'static str = "field `duration` is not a string";

pub const DURATION_NOT_A_NUMBER: &'static str = "field `duration` is not a number";

/// Every element is a JSON object.
pub open spec fn all_objects(items: Seq<JsonValue>) -> bool {
    forall|i: int| 0 <= i < items.len() ==> #[trigger] items[i] is Object
}

/// The streams that an object reports: one for each element of the array
/// under `streams`, each of which must be an object.
pub open spec fn streams_of(doc: JsonValue) -> Result<Seq<Stream>, Failure> {
    match member_of(doc, "streams"@) {
        None => Err(Failure::Json(NO_STREAMS@)),
        Some(JsonValue::Array(items)) => if all_objects(items) {
            Ok(Seq::new(items.len(), |i: int| Stream {  }))
        } else {
            Err(Failure::Json(STREAM_NOT_AN_OBJECT@))
        },
        Some(_) => Err(Failure::Json(STREAMS_NOT_AN_ARRAY@)),
    }
}

/// The duration that an object reports: the text under `duration` in the
/// object under `format`, which must be a number.
pub open spec fn duration_of(doc: JsonValue) -> Result<Seq<char>, Failure> {
    match member_of(doc, "format"@) {
        None => Err(Failure::Json(NO_FORMAT@)),
        Some(JsonValue::Object(format)) => match member_of(
            JsonValue::Object(format),
            "duration"@,
        ) {
            None => Err(Failure::Json(NO_DURATION@)),
            Some(JsonValue::Text(duration)) => if is_literal(duration) {
                Ok(duration)
            } else {
                Err(Failure::Json(DURATION_NOT_A_NUMBER@))
            },
            Some(_) => Err(Failure::Json(DURATION_NOT_A_STRING@)),
        },
        Some(_) => Err(Failure::Json(FORMAT_NOT_AN_OBJECT@)),
    }
}

/// The report that a JSON document holds; where it holds none, the first
/// thing that is wrong with it, the streams before the format.
pub open spec fn report_of(doc: JsonValue) -> Result<Report, Failure> {
    if !(doc is Object) {
        Err(Failure::Json(NOT_AN_OBJECT@))
    } else {
        match streams_of(doc) {
            Err(failure) => Err(failure),
            Ok(streams) => match duration_of(doc) {
                Err(failure) => Err(failure),
                Ok(duration) => Ok(Report { streams, duration }),
            },
        }
    }
}

/// The report that a text holds: that of the JSON document it is.
pub open spec fn decoded(text: Seq<u8>) -> Result<Report, Failure> {
    match document(text) {
        Ok(doc) => report_of(doc),
        Err(why) => Err(Failure::Json(why)),
    }
}

/// What an attempt amounts to: the report that the tool printed if it
/// ended with code 0, and else the way it failed.
pub open spec fn outcome(ending: Ending) -> Result<Report, Failure> {
    match ending {
        Ending::Failed(why) => Err(Failure::Io(why)),
        Ending::Exited { code, stdout } => if code == Some(0i32) {
            decoded(stdout)
        } else {
            Err(Failure::Process(code))
        },
    }
}

fn mismatch(why: &'static str) -> (error: FFProbeError)
    ensures
        error@ == Failure::Json(why@),
{
    FFProbeError::Json(why.to_owned())
}

/// Reads the streams of a document.
fn read_streams(doc: &serde_json::Value) -> (out: Result<Vec<Stream>, FFProbeError>)
    ensures
        out matches Ok(streams) ==> (streams_of(content(*doc)) matches Ok(held) && held
            == streams@),
        out matches Err(error) ==> (streams_of(content(*doc)) matches Err(met) && met == error@),
{
    let listed = match member(doc, "streams") {
        Some(listed) => listed,
        None => {
            return Err(mismatch(NO_STREAMS));
        },
    };
    let items = match elements(listed) {
        Some(items) => items,
        None => {
            return Err(mismatch(STREAMS_NOT_AN_ARRAY));
        },
    };
    let ghost shapes = contents(items@);
    let mut streams: Vec<Stream> = Vec::new();
    let mut at: usize = 0;
    while at < items.len()
        invariant
            member_of(content(*doc), "streams"@) == Some(JsonValue::Array(shapes)),
            shapes == contents(items@),
            at <= items@.len(),
            forall|i: int| 0 <= i < at ==> #[trigger] shapes[i] is Object,
            streams@ =~= Seq::new(at as nat, |i: int| Stream {  }),
        decreases items@.len() - at,
    {
        if !is_object(&items[at]) {
            assert(!(shapes[at as int] is Object));
            return Err(mismatch(STREAM_NOT_AN_OBJECT));
        }
        streams.push(Stream {  });
        at = at + 1;
    }
    Ok(streams)
}

/// Reads the format of a document.
fn read_format(doc: &serde_json::Value) -> (out: Result<Format, FFProbeError>)
    ensures
        out matches Ok(format) ==> (duration_of(content(*doc)) matches Ok(held) && held
            == format.duration@),
        out matches Err(error) ==> (duration_of(content(*doc)) matches Err(met) && met == error@),
{
    let format = match member(doc, "format") {
        Some(format) => format,
        None => {
            return Err(mismatch(NO_FORMAT));
        },
    };
    if !is_object(format) {
        return Err(mismatch(FORMAT_NOT_AN_OBJECT));
    }
    let stated = match member(format, "duration") {
        Some(stated) => stated,
        None => {
            return Err(mismatch(NO_DURATION));
        },
    };
    let duration = match text(stated) {
        Some(duration) => duration,
        None => {
            return Err(mismatch(DURATION_NOT_A_STRING));
        },
    };
    if !is_literal_text(duration) {
        return Err(mismatch(DURATION_NOT_A_NUMBER));
    }
    Ok(Format { duration: duration.to_owned() })
}

/// Reads the report out of a parsed JSON document.
pub fn read_document(doc: &serde_json::Value) -> (out: Result<FFProbe, FFProbeError>)
    ensures
        seen(out) == report_of(content(*doc)),
        out matches Ok(probe) ==> probe.well_formed(),
{
    if !is_object(doc) {
        return Err(mismatch(NOT_AN_OBJECT));
    }
    let streams = match read_streams(doc) {
        Ok(streams) => streams,
        Err(error) => {
            return Err(error);
        },
    };
    let format = match read_format(doc) {
        Ok(format) => format,
        Err(error) => {
            return Err(error);
        },
    };
    Ok(FFProbe { streams, format })
}

/// Reads the report out of what the tool printed.
pub fn decode(stdout: &[u8]) -> (out: Result<FFProbe, FFProbeError>)
    ensures
        seen(out) == decoded(stdout@),
        out matches Ok(probe) ==> probe.well_formed(),
{
    match parse(stdout) {
        Ok(doc) => read_document(&doc),
        Err(why) => Err(FFProbeError::Json(why)),
    }
}

/// Says what an attempt to run the tool amounts to.
pub fn conclude(attempt: Attempt) -> (out: Result<FFProbe, FFProbeError>)
    ensures
        seen(out) == outcome(attempt@),
        out matches Ok(probe) ==> probe.well_formed(),
{
    match attempt {
        Attempt::Failed(why) => Err(FFProbeError::Io(why)),
        Attempt::Exited { code, stdout } => match code {
            Some(0) => decode(stdout.as_slice()),
            _ => Err(FFProbeError::Process(code)),
        },
    }
}

/// A report has one stream for each element of the array that the
/// document holds under `streams`.
pub proof fn lemma_one_stream_for_each_element(doc: JsonValue)
    requires
        report_of(doc) is Ok,
    ensures
        member_of(doc, "streams"@) matches Some(JsonValue::Array(items)) && items.len()
            == report_of(doc)->Ok_0.streams.len(),
{
}

/// The duration of a report is the text that the document holds under
/// `duration` in `format`, and that text is a number.
pub proof fn lemma_duration_is_the_stated_number(doc: JsonValue)
    requires
        report_of(doc) is Ok,
    ensures
        member_of(doc, "format"@) matches Some(format) && member_of(format, "duration"@) == Some(
            JsonValue::Text(report_of(doc)->Ok_0.duration),
        ),
        is_literal(report_of(doc)->Ok_0.duration),
{
}

/// Each way of failing has its cause, and no other: the tool that did
/// not run fails with `Io`; the tool that ended with another code than 0,
/// or with none, fails with `Process` and that code, whatever it
/// printed; the tool that ended with code 0 fails with `Json` where what
/// it printed holds no report.
pub proof fn lemma_each_failure_has_its_cause(ending: Ending, failure: Failure)
    ensures
        (outcome(ending) matches Err(met) && met == failure) <==> (match failure {
            Failure::Io(why) => ending == Ending::Failed(why),
            Failure::Process(left) => {
                &&& left != Some(0i32)
                &&& ending matches Ending::Exited { code, .. }
                &&& code == left
            },
            Failure::Json(_) => {
                &&& ending matches Ending::Exited { code, stdout }
                &&& code == Some(0i32)
                &&& decoded(stdout) matches Err(met)
                &&& met == failure
            },
        }),
{
}

/// However the tool is run, blocking or not, a probe is settled by how
/// the run ended: attempts that ended alike are concluded alike, be it
/// with the same report or with the same failure.
pub proof fn lemma_alike_attempts_alike_results(
    first: Attempt,
    second: Attempt,
    of_first: Result<FFProbe, FFProbeError>,
    of_second: Result<FFProbe, FFProbeError>,
)
    requires
        first@ == second@,
        seen(of_first) == outcome(first@),
        seen(of_second) == outcome(second@),
    ensures
        seen(of_first) == seen(of_second),
{
}

} // verus!
