//! The receiver's check of one decrypted telemetry message: an `END`
//! frame closes the session; any other frame must carry telemetry that
//! parsed and a fresh nonce, and is summarised as
//! `Speed: <value> <unit>, Vehicle ID: <id>, Epoch: <epoch>`.
use vstd::prelude::*;
use crate::decimal::{decimal, u64_to_decimal};
use crate::framing::{check_nonce, nonce_after, FrameParts};
use crate::text::{chars_of, string_from_chars};

verus! {

/// The fields of a telemetry record that the receiver reports, with the
/// speed's value already written as text.
pub struct TelemetryFields {
    /// The speed's value (as text) and unit, if the record has a speed.
    pub speed: Option<(String, String)>,
    /// The vehicle's id, if the record has one.
    pub vehicle_id: Option<String>,
    /// The time of the record, if it has one.
    pub epoch: Option<u64>,
}

/// Why the receiver refused a message.
#[derive(Clone, Copy, Debug, PartialEq, Eq)]
pub enum MessageRejection {
    /// The payload is not a telemetry record.
    BadTelemetry,
    /// The nonce is not larger than every nonce accepted before.
    NonceReused,
}

/// The characters of `N/A`.
pub open spec fn not_available() -> Seq<char> {
    seq!['N', '/', 'A']
}

/// The receiver's summary of a telemetry record.
pub open spec fn telemetry_text(speed: Option<(Seq<char>, Seq<char>)>, vehicle_id: Option<Seq<char>>, epoch: Option<u64>) -> Seq<char> {
    let s = match speed {
        Some((v, u)) => v + seq![' '] + u,
        None => not_available(),
    };
    let id = match vehicle_id {
        Some(i) => i,
        None => not_available(),
    };
    let e = match epoch {
        Some(e) => e,
        None => 0,
    };
    seq!['S', 'p', 'e', 'e', 'd', ':', ' '] + s + seq![',', ' ', 'V', 'e', 'h', 'i', 'c', 'l', 'e', ' ', 'I', 'D', ':', ' ']
        + id + seq![',', ' ', 'E', 'p', 'o', 'c', 'h', ':', ' '] + decimal(e as nat)
}

/// The view of the fields of a telemetry record.
pub open spec fn fields_view(t: TelemetryFields) -> (Option<(Seq<char>, Seq<char>)>, Option<Seq<char>>, Option<u64>) {
    (
        match t.speed {
            Some((v, u)) => Some((v@, u@)),
            None => None,
        },
        match t.vehicle_id {
            Some(i) => Some(i@),
            None => None,
        },
        t.epoch,
    )
}

/// `, Vehicle ID: `.
pub open spec fn vehicle_label() -> Seq<char> {
    seq![',', ' ', 'V', 'e', 'h', 'i', 'c', 'l', 'e', ' ', 'I', 'D', ':', ' ']
}

/// `, Epoch: `.
pub open spec fn epoch_label() -> Seq<char> {
    seq![',', ' ', 'E', 'p', 'o', 'c', 'h', ':', ' ']
}

/// The summary line names the vehicle and the time whatever the speed: it
/// starts with `Speed: ` and ends with `, Vehicle ID: `, the vehicle's id
/// (`N/A` when the record has none), `, Epoch: ` and the time in decimal
/// (0 when the record has none). So two records that differ only in their
/// speed give lines with the same ending.
pub proof fn lemma_summary_names_vehicle_and_time(
    speed: Option<(Seq<char>, Seq<char>)>,
    vehicle_id: Option<Seq<char>>,
    epoch: Option<u64>,
)
    ensures
        ({
            let line = telemetry_text(speed, vehicle_id, epoch);
            let id = match vehicle_id {
                Some(i) => i,
                None => not_available(),
            };
            let e = match epoch {
                Some(e) => e,
                None => 0,
            };
            let tail = vehicle_label() + id + epoch_label() + decimal(e as nat);
            &&& line.len() >= 7 + tail.len()
            &&& line.take(7) == seq!['S', 'p', 'e', 'e', 'd', ':', ' ']
            &&& line.skip(line.len() - tail.len()) == tail
        }),
{
    let line = telemetry_text(speed, vehicle_id, epoch);
    let id = match vehicle_id {
        Some(i) => i,
        None => not_available(),
    };
    let e = match epoch {
        Some(e) => e,
        None => 0,
    };
    let sp = match speed {
        Some((v, u)) => v + seq![' '] + u,
        None => not_available(),
    };
    let tail = vehicle_label() + id + epoch_label() + decimal(e as nat);
    let head = seq!['S', 'p', 'e', 'e', 'd', ':', ' '] + sp;
    assert(line =~= head + tail);
    assert(line.take(7) =~= seq!['S', 'p', 'e', 'e', 'd', ':', ' ']);
    assert(line.skip(line.len() - tail.len()) =~= tail);
}

fn push_str(out: &mut Vec<char>, s: &str)
    ensures
        final(out)@ == old(out)@ + s@,
{
    let mut c = chars_of(s);
    out.append(&mut c);
}

/// The receiver's summary line of a telemetry record.
pub fn telemetry_summary(t: &TelemetryFields) -> (s: String)
    ensures
        s@ == telemetry_text(fields_view(*t).0, fields_view(*t).1, fields_view(*t).2),
{
    let mut out: Vec<char> = Vec::new();
    push_str(&mut out, "Speed: ");
    match &t.speed {
        Some((v, u)) => {
            push_str(&mut out, v.as_str());
            out.push(' ');
            push_str(&mut out, u.as_str());
        },
        None => {
            push_str(&mut out, "N/A");
        },
    }
    push_str(&mut out, ", Vehicle ID: ");
    match &t.vehicle_id {
        Some(i) => {
            push_str(&mut out, i.as_str());
        },
        None => {
            push_str(&mut out, "N/A");
        },
    }
    push_str(&mut out, ", Epoch: ");
    let e: u64 = match t.epoch {
        Some(e) => e,
        None => 0,
    };
    let digits = u64_to_decimal(e);
    push_str(&mut out, digits.as_str());
    proof {
        reveal_strlit("Speed: ");
        reveal_strlit("N/A");
        reveal_strlit(", Vehicle ID: ");
        reveal_strlit(", Epoch: ");
        let v = fields_view(*t);
        assert(out@ =~= telemetry_text(v.0, v.1, v.2));
    }
    string_from_chars(out)
}

/// The receiver's decision on one decrypted message, taken apart by
/// `parse_frame`: an `END` payload gives `END` and leaves the nonce state
/// alone; otherwise the payload must have parsed as telemetry (`None`
/// where it did not) and the nonce must be larger than every nonce
/// accepted before (`largest`), and the summary line is returned.
pub fn check_message(parts: &FrameParts, telemetry: Option<&TelemetryFields>, largest: &mut u64) -> (r: Result<String, MessageRejection>)
    ensures
        parts.is_end ==> {
            &&& r matches Ok(s) && s@ == seq!['E', 'N', 'D']
            &&& *final(largest) == *old(largest)
        },
        !parts.is_end && telemetry is None ==> {
            &&& r == Err::<String, MessageRejection>(MessageRejection::BadTelemetry)
            &&& *final(largest) == *old(largest)
        },
        !parts.is_end && telemetry is Some ==> {
            &&& *final(largest) == nonce_after(*old(largest), parts.nonce)
            &&& *old(largest) >= parts.nonce ==> r == Err::<String, MessageRejection>(MessageRejection::NonceReused)
            &&& *old(largest) < parts.nonce ==> (r matches Ok(s) && s@ == telemetry_text(
                fields_view(*telemetry->0).0,
                fields_view(*telemetry->0).1,
                fields_view(*telemetry->0).2,
            ))
        },
{
    if parts.is_end {
        let mut out: Vec<char> = Vec::new();
        out.push('E');
        out.push('N');
        out.push('D');
        assert(out@ =~= seq!['E', 'N', 'D']);
        return Ok(string_from_chars(out));
    }
    let t = match telemetry {
        Some(t) => t,
        None => {
            return Err(MessageRejection::BadTelemetry);
        },
    };
    match check_nonce(largest, parts.nonce) {
        Ok(()) => Ok(telemetry_summary(t)),
        Err(_) => Err(MessageRejection::NonceReused),
    }
}

} // verus!
