//! The text of the instruction log.
//!
//! One line for each instruction noted, oldest first, as
//! `PPPP: OO SP=SSSS` in upper-case hexadecimal; then, if an interrupt has
//! been served, two lines that describe the last one and say whether
//! interrupts are enabled.

use crate::machine::{InterruptRecord, Machine, TraceEntry};
use vstd::prelude::*;
use vstd::string::StringExecFns;

verus! {

/// The upper-case hexadecimal digit for `n`, which is below 16.
pub open spec fn hex_digit(n: int) -> char {
    if n == 0 {
        '0'
    } else if n == 1 {
        '1'
    } else if n == 2 {
        '2'
    } else if n == 3 {
        '3'
    } else if n == 4 {
        '4'
    } else if n == 5 {
        '5'
    } else if n == 6 {
        '6'
    } else if n == 7 {
        '7'
    } else if n == 8 {
        '8'
    } else if n == 9 {
        '9'
    } else if n == 10 {
        'A'
    } else if n == 11 {
        'B'
    } else if n == 12 {
        'C'
    } else if n == 13 {
        'D'
    } else if n == 14 {
        'E'
    } else {
        'F'
    }
}

/// A byte as two hexadecimal digits.
pub open spec fn hex_byte(v: u8) -> Seq<char> {
    seq![hex_digit(v as int / 16), hex_digit(v as int % 16)]
}

/// A sixteen-bit value as four hexadecimal digits.
pub open spec fn hex_word(w: u16) -> Seq<char> {
    hex_byte((w / 256) as u8) + hex_byte((w % 256) as u8)
}

/// A byte in decimal, without leading zeros.
pub open spec fn decimal_byte(v: u8) -> Seq<char> {
    if v < 10 {
        seq![hex_digit(v as int)]
    } else if v < 100 {
        seq![hex_digit(v as int / 10), hex_digit(v as int % 10)]
    } else {
        seq![hex_digit(v as int / 100), hex_digit((v as int / 10) % 10), hex_digit(v as int % 10)]
    }
}

/// The line of the log for one instruction.
pub open spec fn trace_line(entry: TraceEntry) -> Seq<char> {
    hex_word(entry.0) + ": "@ + hex_byte(entry.1) + " SP="@ + hex_word(entry.2) + "\n"@
}

/// The lines of the log for the first `n` of `entries`.
pub open spec fn trace_lines(entries: Seq<TraceEntry>, n: nat) -> Seq<char>
    decreases n,
{
    if n == 0 {
        Seq::empty()
    } else {
        trace_lines(entries, (n - 1) as nat) + trace_line(entries[n - 1])
    }
}

/// The two lines on the last interrupt served.
pub open spec fn interrupt_note(record: InterruptRecord, ime: bool) -> Seq<char> {
    "Last interrupt: id="@ + decimal_byte(record.0) + " pc="@ + hex_word(record.1) + " IE="@
        + hex_byte(record.2) + " IF="@ + hex_byte(record.3) + "\nIME="@ + (if ime {
        "true"@
    } else {
        "false"@
    }) + "\n"@
}

/// The whole text of the log of a console.
pub open spec fn trace_text(s: Machine) -> Seq<char> {
    trace_lines(s.trace_entries(), s.trace_entries().len()) + match s.last_interrupt {
        Some(record) => interrupt_note(record, s.ime),
        None => Seq::empty(),
    }
}

/// The upper-case hexadecimal digit for `n`, as text.
fn digit(n: u8) -> (r: &'static str)
    requires
        n < 16,
    ensures
        r@ == seq![hex_digit(n as int)],
{
    proof {
        reveal_strlit("0");
        reveal_strlit("1");
        reveal_strlit("2");
        reveal_strlit("3");
        reveal_strlit("4");
        reveal_strlit("5");
        reveal_strlit("6");
        reveal_strlit("7");
        reveal_strlit("8");
        reveal_strlit("9");
        reveal_strlit("A");
        reveal_strlit("B");
        reveal_strlit("C");
        reveal_strlit("D");
        reveal_strlit("E");
        reveal_strlit("F");
    }
    let r = match n {
        0 => "0",
        1 => "1",
        2 => "2",
        3 => "3",
        4 => "4",
        5 => "5",
        6 => "6",
        7 => "7",
        8 => "8",
        9 => "9",
        10 => "A",
        11 => "B",
        12 => "C",
        13 => "D",
        14 => "E",
        _ => "F",
    };
    assert(r@ =~= seq![hex_digit(n as int)]);
    r
}

/// Appends `v` as two hexadecimal digits.
fn push_hex_byte(out: &mut String, v: u8)
    ensures
        final(out)@ == old(out)@ + hex_byte(v),
{
    out.append(digit(v / 16));
    out.append(digit(v % 16));
    assert(out@ =~= old(out)@ + hex_byte(v));
}

/// Appends `w` as four hexadecimal digits.
fn push_hex_word(out: &mut String, w: u16)
    ensures
        final(out)@ == old(out)@ + hex_word(w),
{
    push_hex_byte(out, (w / 256) as u8);
    push_hex_byte(out, (w % 256) as u8);
    assert(out@ =~= old(out)@ + hex_word(w));
}

/// Appends `v` in decimal.
fn push_decimal_byte(out: &mut String, v: u8)
    ensures
        final(out)@ == old(out)@ + decimal_byte(v),
{
    if v >= 100 {
        out.append(digit(v / 100));
    }
    if v >= 10 {
        out.append(digit((v / 10) % 10));
    }
    out.append(digit(v % 10));
    assert(out@ =~= old(out)@ + decimal_byte(v));
}

/// Appends the line of the log for one instruction.
fn push_trace_line(out: &mut String, entry: TraceEntry)
    ensures
        final(out)@ == old(out)@ + trace_line(entry),
{
    push_hex_word(out, entry.0);
    out.append(": ");
    push_hex_byte(out, entry.1);
    out.append(" SP=");
    push_hex_word(out, entry.2);
    out.append("\n");
    assert(out@ =~= old(out)@ + trace_line(entry));
}

/// Appends the two lines on the last interrupt served.
fn push_interrupt_note(out: &mut String, record: InterruptRecord, ime: bool)
    ensures
        final(out)@ == old(out)@ + interrupt_note(record, ime),
{
    out.append("Last interrupt: id=");
    push_decimal_byte(out, record.0);
    out.append(" pc=");
    push_hex_word(out, record.1);
    out.append(" IE=");
    push_hex_byte(out, record.2);
    out.append(" IF=");
    push_hex_byte(out, record.3);
    out.append("\nIME=");
    if ime {
        out.append("true");
    } else {
        out.append("false");
    }
    out.append("\n");
    assert(out@ =~= old(out)@ + interrupt_note(record, ime));
}

/// The text of a log with the given entries, oldest first, and the given
/// last interrupt.
pub fn format_trace(entries: &Vec<TraceEntry>, last: Option<InterruptRecord>, ime: bool) -> (out:
    String)
    ensures
        out@ == trace_lines(entries@, entries@.len()) + match last {
            Some(record) => interrupt_note(record, ime),
            None => Seq::empty(),
        },
{
    let mut out = String::new();
    let mut i: usize = 0;
    while i < entries.len()
        invariant
            i <= entries@.len(),
            out@ == trace_lines(entries@, i as nat),
        decreases entries@.len() - i,
    {
        push_trace_line(&mut out, entries[i]);
        i += 1;
    }
    if let Some(record) = last {
        push_interrupt_note(&mut out, record, ime);
    } else {
        assert(out@ =~= out@ + Seq::<char>::empty());
    }
    out
}

} // verus!
