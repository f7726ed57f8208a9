//! Diagnostic trouble code descriptions.
use vstd::prelude::*;
use crate::text::{str_chars, str_to_string, eq_chars, string_push, push_str};

verus! {

pub open spec fn spec_describe_dtc(code: Seq<char>) -> Seq<char> {
    if code == "C0035"@ {
        "Left Front Wheel Speed Sensor Circuit"@
    } else if code == "U0100"@ {
        "Lost Communication With ECM/PCM A"@
    } else if code.len() > 0 && (code[0] == 'B' || code[0] == 'C' || code[0] == 'U') {
        seq![code[0]] + " code - see service information"@
    } else {
        "No description available"@
    }
}

/// A human description of a DTC; body, chassis and network codes without an
/// entry point to the service information.
pub fn describe_dtc(code: &str) -> (r: String)
    ensures
        r@ == spec_describe_dtc(code@),
{
    let c = str_chars(code);
    let c1 = str_chars("C0035");
    let u1 = str_chars("U0100");
    if eq_chars(c.as_slice(), c1.as_slice()) {
        return str_to_string("Left Front Wheel Speed Sensor Circuit");
    }
    if eq_chars(c.as_slice(), u1.as_slice()) {
        return str_to_string("Lost Communication With ECM/PCM A");
    }
    if c.len() > 0 && (c[0] == 'B' || c[0] == 'C' || c[0] == 'U') {
        let mut s = String::new();
        string_push(&mut s, c[0]);
        push_str(&mut s, " code - see service information");
        return s;
    }
    str_to_string("No description available")
}

} // verus!
