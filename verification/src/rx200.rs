//! The broadcasts of an external power meter: JSON objects with forward
//! and reflected power, each as a number or as text.
use crate::text::{self, chars_of, string_of, trimmed};
use vstd::prelude::*;

verus! {

/// The port that the meter broadcasts to.
pub const RX200_PORT: u16 = 5573;

/// Age from which a reading counts as stale, in nanoseconds.
pub const STALE_AFTER_NS: u64 = 15_000_000_000;

/// A field of a JSON object.
#[derive(Debug)]
pub enum JsonField {
    Missing,
    /// A number, as it is written in JSON.
    Number(String),
    Text(String),
    /// A value of any other type.
    Other,
}

/// The contents of a [`JsonField`].
#[verifier::ext_equal]
pub enum FieldModel {
    Missing,
    Number(Seq<char>),
    Text(Seq<char>),
    Other,
}

impl View for JsonField {
    type V = FieldModel;

    open spec fn view(&self) -> FieldModel {
        match *self {
            JsonField::Missing => FieldModel::Missing,
            JsonField::Number(s) => FieldModel::Number(s@),
            JsonField::Text(s) => FieldModel::Text(s@),
            JsonField::Other => FieldModel::Other,
        }
    }
}

/// What `serde_json::from_slice` finds under a key of a packet; `None`
/// where the packet is no JSON.
pub uninterp spec fn json_field(packet: Seq<u8>, key: Seq<char>) -> Option<FieldModel>;

/// The contents of an optional field.
pub open spec fn contents(f: Option<JsonField>) -> Option<FieldModel> {
    match f {
        Some(x) => Some(x@),
        None => None,
    }
}

/// `serde_json::from_slice`, and what the value it gives holds under a
/// key: the same bytes and the same key always give the same field. A
/// number comes as the text that `serde_json` writes for it.
#[verifier::external_body]
fn field_of(packet: &[u8], key: &str) -> (f: Option<JsonField>)
    ensures
        contents(f) == json_field(packet@, key@),
{
    let value: serde_json::Value = serde_json::from_slice(packet).ok()?;
    Some(match value.get(key) {
        None => JsonField::Missing,
        Some(serde_json::Value::Number(n)) => JsonField::Number(n.to_string()),
        Some(serde_json::Value::String(s)) => JsonField::Text(s.clone()),
        Some(_) => JsonField::Other,
    })
}

/// The texts of a broadcast: both powers, still to be read as numbers, and
/// the meter's own time.
#[derive(Debug)]
pub struct Rx200Fields {
    pub fwd_watts: String,
    pub ref_watts: String,
    pub device_time: String,
}

/// The contents of [`Rx200Fields`].
#[verifier::ext_equal]
pub struct Rx200Model {
    pub fwd_watts: Seq<char>,
    pub ref_watts: Seq<char>,
    pub device_time: Seq<char>,
}

impl View for Rx200Fields {
    type V = Rx200Model;

    open spec fn view(&self) -> Rx200Model {
        Rx200Model {
            fwd_watts: self.fwd_watts@,
            ref_watts: self.ref_watts@,
            device_time: self.device_time@,
        }
    }
}

/// The text of a power: a number, or a text without the spaces around it.
pub open spec fn power_text(f: Option<FieldModel>) -> Option<Seq<char>> {
    match f {
        Some(FieldModel::Number(s)) => Some(s),
        Some(FieldModel::Text(s)) => Some(text::trim(s)),
        _ => None,
    }
}

/// The meter's time: a text or a number, else nothing.
pub open spec fn time_text(f: Option<FieldModel>) -> Seq<char> {
    match f {
        Some(FieldModel::Number(s)) => s,
        Some(FieldModel::Text(s)) => s,
        _ => Seq::empty(),
    }
}

/// What the fields of a broadcast say, where both powers are there.
pub open spec fn reading(
    fwd: Option<FieldModel>,
    refl: Option<FieldModel>,
    time: Option<FieldModel>,
) -> Option<Rx200Model> {
    match (power_text(fwd), power_text(refl)) {
        (Some(f), Some(r)) => Some(
            Rx200Model { fwd_watts: f, ref_watts: r, device_time: time_text(time) },
        ),
        _ => None,
    }
}

fn power_of(f: Option<JsonField>) -> (t: Option<String>)
    ensures
        match t {
            Some(s) => power_text(contents(f)) == Some(s@),
            None => power_text(contents(f)) is None,
        },
{
    match f {
        Some(JsonField::Number(s)) => Some(s),
        Some(JsonField::Text(s)) => {
            let v: Vec<char> = chars_of(s.as_str());
            let t: Vec<char> = trimmed(v.as_slice());
            Some(string_of(t.as_slice()))
        },
        _ => None,
    }
}

/// Picks a reading out of the three fields of a broadcast.
pub fn pick_fields(
    fwd: Option<JsonField>,
    refl: Option<JsonField>,
    time: Option<JsonField>,
) -> (r: Option<Rx200Fields>)
    ensures
        match r {
            Some(x) => reading(contents(fwd), contents(refl), contents(time)) == Some(x@),
            None => reading(contents(fwd), contents(refl), contents(time)) is None,
        },
{
    let fwd_watts: String = match power_of(fwd) {
        Some(s) => s,
        None => {
            return None;
        },
    };
    let ref_watts: String = match power_of(refl) {
        Some(s) => s,
        None => {
            return None;
        },
    };
    let device_time: String = match time {
        Some(JsonField::Number(s)) => s,
        Some(JsonField::Text(s)) => s,
        _ => String::new(),
    };
    let x: Rx200Fields = Rx200Fields { fwd_watts, ref_watts, device_time };
    assert(Some(x@) =~= reading(contents(fwd), contents(refl), contents(time)));
    Some(x)
}

/// Reads a broadcast.
pub fn parse_packet(packet: &[u8]) -> (r: Option<Rx200Fields>)
    ensures
        ({
            let want = reading(
                json_field(packet@, "pwrfwd"@),
                json_field(packet@, "pwrref"@),
                json_field(packet@, "time"@),
            );
            match r {
                Some(x) => want == Some(x@),
                None => want is None,
            }
        }),
{
    let fwd: Option<JsonField> = field_of(packet, "pwrfwd");
    let refl: Option<JsonField> = field_of(packet, "pwrref");
    let time: Option<JsonField> = field_of(packet, "time");
    pick_fields(fwd, refl, time)
}

/// Whether a reading of this age is still shown.
pub fn is_fresh(age_ns: u64) -> (b: bool)
    ensures
        b <==> age_ns < STALE_AFTER_NS,
{
    age_ns < STALE_AFTER_NS
}

/// No reading comes of a broadcast that lacks a power, whatever else it
/// holds.
pub proof fn law_both_powers_needed(
    fwd: Option<FieldModel>,
    refl: Option<FieldModel>,
    time: Option<FieldModel>,
)
    ensures
        reading(fwd, refl, time) is Some <==> power_text(fwd) is Some && power_text(refl) is Some,
{
}

/// Each power is the text of its own field: a number's digits as they are,
/// a text without the spaces around it. The time is the text of its field
/// as it is, and empty where there is none.
pub proof fn law_reading_is_of_its_fields(
    fwd: Seq<char>,
    refl: Seq<char>,
    time: Seq<char>,
    t: Option<FieldModel>,
)
    ensures
        ({
            let n = |s: Seq<char>| Some(FieldModel::Number(s));
            let x = |s: Seq<char>| Some(FieldModel::Text(s));
            &&& reading(n(fwd), n(refl), x(time)) == Some(
                Rx200Model { fwd_watts: fwd, ref_watts: refl, device_time: time },
            )
            &&& reading(x(fwd), x(refl), n(time)) == Some(
                Rx200Model {
                    fwd_watts: text::trim(fwd),
                    ref_watts: text::trim(refl),
                    device_time: time,
                },
            )
            &&& reading(n(fwd), x(refl), t) is Some && reading(n(fwd), x(refl), t)->0.fwd_watts
                == fwd && reading(n(fwd), x(refl), t)->0.ref_watts == text::trim(refl)
            &&& t is None || t == Some(FieldModel::Missing) || t == Some(FieldModel::Other)
                ==> reading(n(fwd), n(refl), t) is Some && reading(n(fwd), n(refl), t)->0.device_time.len()
                == 0
            &&& reading(n(fwd), Some(FieldModel::Missing), t) is None
            &&& reading(Some(FieldModel::Missing), n(refl), t) is None
            &&& reading(n(fwd), Some(FieldModel::Other), t) is None
            &&& reading(Some(FieldModel::Other), n(refl), t) is None
            &&& reading(None, n(refl), t) is None && reading(n(fwd), None, t) is None
        }),
{
}

} // verus!
