//! What a printer reports over MQTT: the connection it is reached by, and how
//! its reports add up to the status the capsule shows.
use vstd::prelude::*;
use crate::json::{
    find_member, insert_all, keys_distinct, lemma_insert_all_absent, lemma_insert_all_replace,
    lemma_lookup_absent, lemma_lookup_at, lemma_members_map_get, lookup, members_map, JsonNumber,
    JsonValue,
};
use crate::printer::{PrintState, PrinterConfig, PrinterStatus, PrinterStatusView};
use crate::text::{owned, text_eq};
use vstd::string::StringExecFns;

verus! {

broadcast use vstd::string::group_string_axioms;

/// How the MQTT client reaches one printer.
pub struct ConnectionSettings {
    pub client_id: String,
    pub host: String,
    pub port: u16,
    pub username: String,
    pub password: String,
    pub keep_alive_secs: u64,
    pub report_topic: String,
    pub request_topic: String,
}

/// The topic a printer publishes its reports on.
pub open spec fn report_topic_of(serial: Seq<char>) -> Seq<char> {
    "device/"@ + serial + "/report"@
}

/// The topic a printer takes requests on.
pub open spec fn request_topic_of(serial: Seq<char>) -> Seq<char> {
    "device/"@ + serial + "/request"@
}

/// The settings of the connection to the printer that `config` describes:
/// the serial number is the client id, the printer's local MQTT server
/// listens on port 8883 with the user `bblp` and the access code as password,
/// and the connection is kept alive every 30 seconds.
pub fn connection_settings(config: &PrinterConfig) -> (r: ConnectionSettings)
    ensures
        r.client_id@ == config.serial@,
        r.host@ == config.ip_address@,
        r.port == 8883,
        r.username@ == "bblp"@,
        r.password@ == config.access_code@,
        r.keep_alive_secs == 30,
        r.report_topic@ == report_topic_of(config.serial@),
        r.request_topic@ == request_topic_of(config.serial@),
{
    let report_topic = owned("device/").concat(config.serial.as_str()).concat("/report");
    let request_topic = owned("device/").concat(config.serial.as_str()).concat("/request");
    ConnectionSettings {
        client_id: config.serial.clone(),
        host: config.ip_address.clone(),
        port: 8883,
        username: owned("bblp"),
        password: config.access_code.clone(),
        keep_alive_secs: 30,
        report_topic,
        request_topic,
    }
}

/// Seconds to wait before the monitor looks at the configurations again:
/// 3 while none is configured, 5 after all connections have ended.
pub fn next_poll_delay_secs(printer_count: usize) -> (r: u64)
    ensures
        r == (if printer_count == 0 { 3u64 } else { 5u64 }),
{
    if printer_count == 0 {
        3
    } else {
        5
    }
}

/// The state named by a `gcode_state` text.
pub open spec fn state_of_gcode(t: Seq<char>) -> PrintState {
    if t == "RUNNING"@ {
        PrintState::Printing
    } else if t == "PAUSE"@ {
        PrintState::Paused
    } else if t == "FINISH"@ {
        PrintState::Completed
    } else if t == "FAILED"@ {
        PrintState::Failed
    } else if t == "IDLE"@ {
        PrintState::Idle
    } else {
        PrintState::Unknown
    }
}

/// The state the fields report: from `gcode_state` where it is a text.
pub open spec fn reported_state(fields: Map<Seq<char>, JsonValue>) -> PrintState {
    if fields.contains_key("gcode_state"@) {
        match fields["gcode_state"@] {
            JsonValue::Text(t) => state_of_gcode(t@),
            _ => PrintState::Unknown,
        }
    } else {
        PrintState::Unknown
    }
}

/// An integer field, cut to 32 bits, or 0 where the field is no integer.
pub open spec fn reported_int(fields: Map<Seq<char>, JsonValue>, key: Seq<char>) -> i32 {
    if fields.contains_key(key) {
        match fields[key] {
            JsonValue::Number(n) => match n.integer {
                Some(v) => v as i32,
                None => 0,
            },
            _ => 0,
        }
    } else {
        0
    }
}

/// The bit pattern of a number field, or that of `0.0` where the field is no
/// number.
pub open spec fn reported_float_bits(fields: Map<Seq<char>, JsonValue>, key: Seq<char>) -> u64 {
    if fields.contains_key(key) {
        match fields[key] {
            JsonValue::Number(n) => match n.float_bits {
                Some(b) => b,
                None => 0,
            },
            _ => 0,
        }
    } else {
        0
    }
}

/// The status that the fields a printer reported add up to.
pub open spec fn report_status(name: Seq<char>, fields: Map<Seq<char>, JsonValue>) -> PrinterStatusView {
    PrinterStatusView {
        name,
        status: reported_state(fields),
        progress: reported_int(fields, "mc_percent"@),
        remaining_time: reported_int(fields, "mc_remaining_time"@),
        nozzle_temp_bits: reported_float_bits(fields, "nozzle_temper"@),
        bed_temp_bits: reported_float_bits(fields, "bed_temper"@),
        layer_num: reported_int(fields, "layer_num"@),
        total_layers: reported_int(fields, "total_layer_num"@),
    }
}

/// The members of the `print` object of a report, where the report is an
/// object that has one; none otherwise.
pub open spec fn print_members(doc: JsonValue) -> Seq<(String, JsonValue)> {
    match doc {
        JsonValue::Object(ms) => match lookup(ms@, "print"@) {
            Some(JsonValue::Object(p)) => p@,
            _ => Seq::empty(),
        },
        _ => Seq::empty(),
    }
}

fn state_from_gcode(t: &str) -> (r: PrintState)
    ensures
        r == state_of_gcode(t@),
{
    if text_eq(t, "RUNNING") {
        PrintState::Printing
    } else if text_eq(t, "PAUSE") {
        PrintState::Paused
    } else if text_eq(t, "FINISH") {
        PrintState::Completed
    } else if text_eq(t, "FAILED") {
        PrintState::Failed
    } else if text_eq(t, "IDLE") {
        PrintState::Idle
    } else {
        PrintState::Unknown
    }
}

/// The value of field `key`.
fn field<'a>(data: &'a Vec<(String, JsonValue)>, key: &str) -> (r: Option<&'a JsonValue>)
    requires
        keys_distinct(data@),
    ensures
        match r {
            Some(v) => members_map(data@).contains_key(key@) && members_map(data@)[key@] == *v,
            None => !members_map(data@).contains_key(key@),
        },
{
    match find_member(data, key) {
        Some(i) => {
            proof {
                lemma_members_map_get(Map::empty(), data@, i as int);
            }
            Some(&data[i].1)
        },
        None => {
            proof {
                lemma_insert_all_absent(Map::empty(), data@, key@);
            }
            None
        },
    }
}

fn int_field(data: &Vec<(String, JsonValue)>, key: &str) -> (r: i32)
    requires
        keys_distinct(data@),
    ensures
        r == reported_int(members_map(data@), key@),
{
    match field(data, key) {
        Some(JsonValue::Number(n)) => match n.integer {
            Some(v) => v as i32,
            None => 0,
        },
        _ => 0,
    }
}

fn float_bits_field(data: &Vec<(String, JsonValue)>, key: &str) -> (r: u64)
    requires
        keys_distinct(data@),
    ensures
        r == reported_float_bits(members_map(data@), key@),
{
    match field(data, key) {
        Some(JsonValue::Number(n)) => match n.float_bits {
            Some(b) => b,
            None => 0,
        },
        _ => 0,
    }
}

/// Sets member `k` to `v`, in place where `k` is there, at the end where not.
fn upsert(data: &mut Vec<(String, JsonValue)>, k: String, v: JsonValue)
    requires
        keys_distinct(old(data)@),
    ensures
        keys_distinct(final(data)@),
        members_map(final(data)@) == members_map(old(data)@).insert(k@, v),
{
    match find_member(data, k.as_str()) {
        Some(j) => {
            proof {
                lemma_insert_all_replace(Map::empty(), data@, j as int, k, v);
            }
            let ghost kv = k@;
            data.set(j, (k, v));
            assert(keys_distinct(data@)) by {
                assert forall|a: int, b: int|
                    0 <= a < b < data@.len() implies #[trigger] data@[a].0@ != #[trigger] data@[b].0@ by {
                    assert(old(data)@[a].0@ != old(data)@[b].0@);
                }
            }
        },
        None => {
            let ghost before = data@;
            data.push((k, v));
            assert(data@.drop_last() =~= before);
            assert(keys_distinct(data@)) by {
                assert forall|a: int, b: int|
                    0 <= a < b < data@.len() implies #[trigger] data@[a].0@ != #[trigger] data@[b].0@ by {
                    if b < before.len() {
                        assert(before[a].0@ != before[b].0@);
                    } else {
                        assert(before[a].0@ != k@);
                    }
                }
            }
        },
    }
}

/// The fields a printer has reported so far: each report's `print` object
/// updates the fields it names and leaves the others as they were.
pub struct ReportState {
    data: Vec<(String, JsonValue)>,
}

impl ReportState {
    #[verifier::type_invariant]
    spec fn distinct_fields(self) -> bool {
        keys_distinct(self.data@)
    }
}

impl View for ReportState {
    type V = Map<Seq<char>, JsonValue>;

    closed spec fn view(&self) -> Map<Seq<char>, JsonValue> {
        members_map(self.data@)
    }
}

impl ReportState {
    /// Nothing reported yet.
    pub fn new() -> (r: Self)
        ensures
            r@ == Map::<Seq<char>, JsonValue>::empty(),
    {
        ReportState { data: Vec::new() }
    }

    /// Merges the members of a `print` object into the fields.
    pub fn merge(&mut self, members: Vec<(String, JsonValue)>)
        ensures
            final(self)@ == insert_all(old(self)@, members@),
    {
        proof {
            use_type_invariant(&*self);
        }
        let mut data: Vec<(String, JsonValue)> = Vec::new();
        std::mem::swap(&mut data, &mut self.data);
        let ghost start = members_map(data@);
        let ghost orig = members@;
        let mut members = members;
        let mut i: usize = 0;
        let n = members.len();
        while i < n
            invariant
                n == orig.len(),
                i <= n,
                members@ == orig.skip(i as int),
                keys_distinct(data@),
                members_map(data@) == insert_all(start, orig.take(i as int)),
            decreases n - i,
        {
            assert(members@.len() > 0);
            let (k, v) = members.remove(0);
            assert(orig.take(i + 1).drop_last() =~= orig.take(i as int));
            assert(orig[i as int] == (k, v));
            upsert(&mut data, k, v);
            assert(orig.skip(i as int).remove(0) =~= orig.skip(i + 1));
            i = i + 1;
        }
        assert(orig.take(n as int) =~= orig);
        self.data = data;
    }

    /// The status the fields reported so far add up to, for the printer
    /// named `name`.
    pub fn status(&self, name: &String) -> (r: PrinterStatus)
        ensures
            r@ == report_status(name@, self@),
    {
        proof {
            use_type_invariant(self);
        }
        let state = match field(&self.data, "gcode_state") {
            Some(JsonValue::Text(t)) => state_from_gcode(t.as_str()),
            _ => PrintState::Unknown,
        };
        PrinterStatus {
            name: name.clone(),
            status: state,
            progress: int_field(&self.data, "mc_percent"),
            remaining_time: int_field(&self.data, "mc_remaining_time"),
            nozzle_temp_bits: float_bits_field(&self.data, "nozzle_temper"),
            bed_temp_bits: float_bits_field(&self.data, "bed_temper"),
            layer_num: int_field(&self.data, "layer_num"),
            total_layers: int_field(&self.data, "total_layer_num"),
        }
    }

    /// Handles one report of the printer named `name`. `document` is the
    /// report read as JSON, or none where it was no UTF-8 text or no JSON:
    /// such a report changes nothing and gives no status. Any other report
    /// merges the members of its `print` object, where it has one, and gives
    /// the status that all fields reported so far add up to.
    pub fn handle_report(&mut self, name: &String, document: Option<JsonValue>) -> (r: Option<
        PrinterStatus,
    >)
        ensures
            document is None ==> r is None && final(self)@ == old(self)@,
            document matches Some(doc) ==> {
                &&& final(self)@ == insert_all(old(self)@, print_members(doc))
                &&& r matches Some(s) && s@ == report_status(name@, final(self)@)
            },
    {
        match document {
            None => None,
            Some(doc) => {
                let members = take_print_members(doc);
                self.merge(members);
                Some(self.status(name))
            },
        }
    }
}

/// `serde_json::Value`, the document a payload parses into; it stands in
/// the signature of `json_value_of`, which moves it into a `JsonValue`.
#[verifier::external_type_specification]
#[verifier::external_body]
pub struct ExJsonDocument(serde_json::Value);

/// The report a payload holds, read as JSON: none where the payload is no
/// UTF-8 text or no JSON document; otherwise the document, each number
/// read as `as_i64` and `as_f64` read it.
pub uninterp spec fn report_json(payload: Seq<u8>) -> Option<JsonValue>;

/// Moves a `serde_json::Value` into the library's `JsonValue`, variant for
/// variant (a number keeps what `Number::as_i64` and `Number::as_f64` give).
#[verifier::external_body]
fn json_value_of(v: serde_json::Value) -> (r: JsonValue) {
    match v {
        serde_json::Value::Null => JsonValue::Null,
        serde_json::Value::Bool(b) => JsonValue::Bool(b),
        serde_json::Value::Number(n) => JsonValue::Number(
            JsonNumber { integer: n.as_i64(), float_bits: n.as_f64().map(|x| x.to_bits()) },
        ),
        serde_json::Value::String(t) => JsonValue::Text(t),
        serde_json::Value::Array(a) => JsonValue::Array(a.into_iter().map(json_value_of).collect()),
        serde_json::Value::Object(m) => JsonValue::Object(
            m.into_iter().map(|(k, x)| (k, json_value_of(x))).collect(),
        ),
    }
}

/// `std::str::from_utf8`, then `serde_json::from_str::<serde_json::Value>`,
/// the document moved into a `JsonValue`: the result is the name
/// `report_json` applied to the payload.
#[verifier::external_body]
pub fn read_report(payload: &[u8]) -> (r: Option<JsonValue>)
    ensures
        r == report_json(payload@),
{
    let text = std::str::from_utf8(payload).ok()?;
    let doc = serde_json::from_str::<serde_json::Value>(text).ok()?;
    Some(json_value_of(doc))
}

impl ReportState {
    /// Handles one report payload of the printer named `name`, as
    /// `handle_report` does with the payload read as JSON.
    pub fn handle_payload(&mut self, name: &String, payload: &[u8]) -> (r: Option<PrinterStatus>)
        ensures
            report_json(payload@) is None ==> r is None && final(self)@ == old(self)@,
            report_json(payload@) matches Some(doc) ==> {
                &&& final(self)@ == insert_all(old(self)@, print_members(doc))
                &&& r matches Some(s) && s@ == report_status(name@, final(self)@)
            },
    {
        let document = read_report(payload);
        self.handle_report(name, document)
    }
}

/// The members of the `print` object of a report.
fn take_print_members(doc: JsonValue) -> (r: Vec<(String, JsonValue)>)
    ensures
        r@ == print_members(doc),
{
    let ghost d = doc;
    match doc {
        JsonValue::Object(ms) => {
            let mut ms = ms;
            match find_member(&ms, "print") {
                Some(j) => {
                    proof {
                        lemma_lookup_at(ms@, "print"@, j as int);
                    }
                    let (_key, v) = ms.remove(j);
                    match v {
                        JsonValue::Object(p) => p,
                        _ => Vec::new(),
                    }
                },
                None => {
                    proof {
                        lemma_lookup_absent(ms@, "print"@);
                    }
                    Vec::new()
                },
            }
        },
        _ => Vec::new(),
    }
}

/// Law: a report updates the fields its `print` object names, and every other
/// field keeps the value it had.
pub proof fn law_report_keeps_unreported_fields(
    fields: Map<Seq<char>, JsonValue>,
    members: Seq<(String, JsonValue)>,
    key: Seq<char>,
)
    requires
        keys_distinct(members),
    ensures
        forall|i: int|
            0 <= i < members.len() ==> #[trigger] insert_all(fields, members)[members[i].0@]
                == members[i].1,
        (forall|j: int| 0 <= j < members.len() ==> #[trigger] members[j].0@ != key) ==> {
            &&& insert_all(fields, members).contains_key(key) == fields.contains_key(key)
            &&& fields.contains_key(key) ==> insert_all(fields, members)[key] == fields[key]
        },
{
    assert forall|i: int| 0 <= i < members.len() implies #[trigger] insert_all(
        fields,
        members,
    )[members[i].0@] == members[i].1 by {
        lemma_members_map_get(fields, members, i);
    }
    if forall|j: int| 0 <= j < members.len() ==> #[trigger] members[j].0@ != key {
        lemma_insert_all_absent(fields, members, key);
    }
}

} // verus!
