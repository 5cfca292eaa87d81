//! The receiver's pairing trace: how each line is stamped and laid out, and
//! when the file starts over.  Reading the clock and appending to the file
//! are the application's job.

use vstd::prelude::*;

use crate::text::{decimal, extend_chars, push_decimal, push_padded, string_from_chars, zero_padded};

verus! {

/// Past this size the trace file is started over rather than rotated.
pub const LOG_MAX_BYTES: u64 = 131072;

/// The trace file's name, next to the configuration file.
pub fn log_file_name() -> (s: &'static str)
    ensures
        s@ == "pairing.log"@,
{
    "pairing.log"
}

/// Local wall-clock time as "YYYY-MM-DD hh:mm:ss.mmm".
pub open spec fn stamp_spec(year: u16, month: u16, day: u16, hour: u16, minute: u16, second: u16, millis: u16) -> Seq<char> {
    zero_padded(year as nat, 4) + "-"@ + zero_padded(month as nat, 2) + "-"@ + zero_padded(day as nat, 2)
        + " "@ + zero_padded(hour as nat, 2) + ":"@ + zero_padded(minute as nat, 2) + ":"@
        + zero_padded(second as nat, 2) + "."@ + zero_padded(millis as nat, 3)
}

/// Local wall-clock time as "YYYY-MM-DD hh:mm:ss.mmm".
pub fn stamp(year: u16, month: u16, day: u16, hour: u16, minute: u16, second: u16, millis: u16) -> (s: String)
    ensures
        s@ == stamp_spec(year, month, day, hour, minute, second, millis),
{
    let mut cs: Vec<char> = Vec::new();
    push_padded(&mut cs, year as u64, 4);
    extend_chars(&mut cs, "-");
    push_padded(&mut cs, month as u64, 2);
    extend_chars(&mut cs, "-");
    push_padded(&mut cs, day as u64, 2);
    extend_chars(&mut cs, " ");
    push_padded(&mut cs, hour as u64, 2);
    extend_chars(&mut cs, ":");
    push_padded(&mut cs, minute as u64, 2);
    extend_chars(&mut cs, ":");
    push_padded(&mut cs, second as u64, 2);
    extend_chars(&mut cs, ".");
    push_padded(&mut cs, millis as u64, 3);
    assert(cs@ =~= stamp_spec(year, month, day, hour, minute, second, millis));
    string_from_chars(&cs)
}

/// Time since the Unix epoch as "epoch+<seconds>.<mmm>", where no local
/// calendar is at hand.
pub fn epoch_stamp(secs: u64, millis: u16) -> (s: String)
    ensures
        s@ == "epoch+"@ + decimal(secs as nat) + "."@ + zero_padded(millis as nat, 3),
{
    let mut cs: Vec<char> = Vec::new();
    extend_chars(&mut cs, "epoch+");
    push_decimal(&mut cs, secs);
    extend_chars(&mut cs, ".");
    push_padded(&mut cs, millis as u64, 3);
    assert(cs@ =~= "epoch+"@ + decimal(secs as nat) + "."@ + zero_padded(millis as nat, 3));
    string_from_chars(&cs)
}

/// One trace line: the stamp, a space, the message, a newline.
pub fn log_line(stamp: &str, message: &str) -> (s: String)
    ensures
        s@ == stamp@ + " "@ + message@ + "\n"@,
{
    let mut cs: Vec<char> = Vec::new();
    extend_chars(&mut cs, stamp);
    extend_chars(&mut cs, " ");
    extend_chars(&mut cs, message);
    extend_chars(&mut cs, "\n");
    assert(cs@ =~= stamp@ + " "@ + message@ + "\n"@);
    string_from_chars(&cs)
}

/// Does the trace start over before the next line?  Only once the file is
/// past `LOG_MAX_BYTES`; a size that cannot be read counts as small.
pub fn start_over(size: Option<u64>) -> (b: bool)
    ensures
        b == (match size {
            Some(n) => n > LOG_MAX_BYTES,
            None => false,
        }),
{
    match size {
        Some(n) => n > LOG_MAX_BYTES,
        None => false,
    }
}

}
