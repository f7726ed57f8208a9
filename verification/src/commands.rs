//! What the serial commands make of a port's answers.
use vstd::prelude::*;
use crate::text::{push_str, str_to_string};

verus! {

/// A frame write: the write's error, else the flush's error, else done.
pub fn write_frame(write: Result<(), String>, flush: Result<(), String>) -> (r: Result<(), String>)
    ensures
        write matches Err(e) ==> (r matches Err(m) && m@ == "Write failed: "@ + e@),
        write is Ok ==> (flush matches Err(e) ==> (r matches Err(m) && m@ == "Flush failed: "@ + e@)),
        write is Ok && flush is Ok ==> r is Ok,
{
    match write {
        Err(e) => {
            let mut m = str_to_string("Write failed: ");
            push_str(&mut m, e.as_str());
            Err(m)
        },
        Ok(()) => match flush {
            Err(e) => {
                let mut m = str_to_string("Flush failed: ");
                push_str(&mut m, e.as_str());
                Err(m)
            },
            Ok(()) => Ok(()),
        },
    }
}

/// A read of up to 512 bytes: the bytes, an error for an empty read, or the
/// read's error.
pub fn read_response(read: Result<Vec<u8>, String>) -> (r: Result<Vec<u8>, String>)
    ensures
        read matches Ok(b) ==> (b@.len() > 0 ==> (r matches Ok(x) && x@ == b@)),
        read matches Ok(b) ==> (b@.len() == 0 ==> (r matches Err(m) && m@ == "Empty response"@)),
        read matches Err(e) ==> (r matches Err(m) && m@ == "Read failed: "@ + e@),
{
    match read {
        Ok(b) => {
            if b.len() > 0 {
                Ok(b)
            } else {
                Err(str_to_string("Empty response"))
            }
        },
        Err(e) => {
            let mut m = str_to_string("Read failed: ");
            push_str(&mut m, e.as_str());
            Err(m)
        },
    }
}

/// The protocol of the session: the stored one, or empty when the session
/// state could not be read.
pub fn current_protocol(stored: Option<&String>) -> (r: String)
    ensures
        match stored {
            Some(p) => r@ == p@,
            None => r@.len() == 0,
        },
{
    match stored {
        Some(p) => str_to_string(p.as_str()),
        None => String::new(),
    }
}

} // verus!
