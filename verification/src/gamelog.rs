//! The game log. The world carries its entries as plain strings; this
//! module also keeps the richer colored-fragment store that the log widget
//! renders from.

use vstd::prelude::*;

use crate::components::Rgb;

verus! {

/// One colored run of text inside a log entry.
#[derive(Clone, Debug)]
pub struct LogFragment {
    pub color: Rgb,
    pub text: String,
}

/// The character for one decimal digit.
pub open spec fn digit_char(d: nat) -> char {
    if d == 0 {
        '0'
    } else if d == 1 {
        '1'
    } else if d == 2 {
        '2'
    } else if d == 3 {
        '3'
    } else if d == 4 {
        '4'
    } else if d == 5 {
        '5'
    } else if d == 6 {
        '6'
    } else if d == 7 {
        '7'
    } else if d == 8 {
        '8'
    } else {
        '9'
    }
}

/// The decimal digits of a nonnegative number, highest first.
pub open spec fn spec_digits(m: nat) -> Seq<char>
    decreases m,
{
    if m < 10 {
        seq![digit_char(m)]
    } else {
        spec_digits(m / 10).push(digit_char(m % 10))
    }
}

/// The decimal rendering of `v`: a minus sign for a negative number, then
/// its magnitude's digits.
pub open spec fn spec_decimal(v: int) -> Seq<char> {
    if v < 0 {
        seq!['-'] + spec_digits((-v) as nat)
    } else {
        spec_digits(v as nat)
    }
}

/// The one-character string for one decimal digit.
fn digit_str(d: u64) -> (r: &'static str)
    requires
        d < 10,
    ensures
        r@ == seq![digit_char(d as nat)],
{
    proof {
        reveal_strlit("0");
        reveal_strlit("1");
        reveal_strlit("2");
        reveal_strlit("3");
        reveal_strlit("4");
        reveal_strlit("5");
        reveal_strlit("6");
        reveal_strlit("7");
        reveal_strlit("8");
        reveal_strlit("9");
    }
    let r = match d {
        0 => "0",
        1 => "1",
        2 => "2",
        3 => "3",
        4 => "4",
        5 => "5",
        6 => "6",
        7 => "7",
        8 => "8",
        _ => "9",
    };
    proof {
        assert(r@ =~= seq![digit_char(d as nat)]);
    }
    r
}

/// Append the decimal digits of `m`, highest first.
fn push_digits(s: &mut String, m: u64)
    ensures
        final(s)@ == old(s)@ + spec_digits(m as nat),
    decreases m,
{
    if m >= 10 {
        push_digits(s, m / 10);
        s.append(digit_str(m % 10));
        proof {
            assert(final(s)@ =~= old(s)@ + spec_digits(m as nat));
        }
    } else {
        s.append(digit_str(m));
        proof {
            assert(final(s)@ =~= old(s)@ + spec_digits(m as nat));
        }
    }
}

/// The decimal rendering of `v`.
pub(crate) fn decimal(v: i64) -> (r: String)
    ensures
        r@ == spec_decimal(v as int),
{
    let mut s = String::new();
    if v < 0 {
        proof {
            reveal_strlit("-");
        }
        s.append("-");
        let magnitude: u64 = (-(v as i128)) as u64;
        push_digits(&mut s, magnitude);
        proof {
            assert(s@ =~= spec_decimal(v as int));
        }
    } else {
        push_digits(&mut s, v as u64);
    }
    s
}

/// Append one entry, built from `parts` joined by single spaces, to `log`.
pub fn push_entry(log: &mut Vec<String>, parts: &Vec<String>)
    ensures
        final(log)@.len() == old(log)@.len() + 1,
        old(log)@.is_prefix_of(final(log)@),
{
    let mut entry = String::new();
    let len = parts.len();
    let mut i: usize = 0;
    while i < len
        invariant
            i <= len,
            len == parts@.len(),
        decreases len - i,
    {
        if i > 0 {
            entry.append(" ");
        }
        entry.append(parts[i].as_str());
        i = i + 1;
    }
    log.push(entry);
    proof {
        assert(old(log)@.is_prefix_of(final(log)@)) by {
            assert(final(log)@.subrange(0, old(log)@.len() as int) =~= old(log)@);
        }
    }
}

/// Append one already-built line to `log`.
pub fn push_line(log: &mut Vec<String>, line: String)
    ensures
        final(log)@ == old(log)@.push(line),
        final(log)@.len() == old(log)@.len() + 1,
        old(log)@.is_prefix_of(final(log)@),
{
    log.push(line);
    proof {
        assert(old(log)@.is_prefix_of(final(log)@)) by {
            assert(final(log)@.subrange(0, old(log)@.len() as int) =~= old(log)@);
        }
    }
}

/// Log that `name` suffered `amount` hit-point damage.
pub fn log_damage_suffered(log: &mut Vec<String>, name: &String, amount: i64)
    ensures
        final(log)@.len() == old(log)@.len() + 1,
        old(log)@.is_prefix_of(final(log)@),
{
    let mut line = name.clone();
    line.append(" suffers ");
    line.append(decimal(amount).as_str());
    line.append(" damage.");
    push_line(log, line);
}

/// Log that `name` suffered `amount` fatigue.
pub fn log_fatigue_suffered(log: &mut Vec<String>, name: &String, amount: i64)
    ensures
        final(log)@.len() == old(log)@.len() + 1,
        old(log)@.is_prefix_of(final(log)@),
{
    let mut line = name.clone();
    line.append(" suffers ");
    line.append(decimal(amount).as_str());
    line.append(" fatigue.");
    push_line(log, line);
}

/// Log that `name` started bleeding.
pub fn log_bleeding(log: &mut Vec<String>, name: &String)
    ensures
        final(log)@.len() == old(log)@.len() + 1,
        old(log)@.is_prefix_of(final(log)@),
{
    let mut line = name.clone();
    line.append(" is bleeding.");
    push_line(log, line);
}

/// Log a line about `name` with the given suffix appended.
pub fn log_name_suffix(log: &mut Vec<String>, name: &String, suffix: &str)
    ensures
        final(log)@.len() == old(log)@.len() + 1,
        old(log)@.is_prefix_of(final(log)@),
{
    let mut line = name.clone();
    line.append(suffix);
    push_line(log, line);
}

/// A builder for one colored log entry, mirroring how systems assemble a
/// line fragment by fragment before committing it.
pub struct Logger {
    pub current_color: Rgb,
    pub fragments: Vec<LogFragment>,
}

impl Logger {
    /// A fresh builder writing in white.
    pub fn new() -> (r: Logger)
        ensures
            r.fragments@.len() == 0,
            r.current_color == (Rgb { r: 255, g: 255, b: 255 }),
    {
        Logger { current_color: Rgb { r: 255, g: 255, b: 255 }, fragments: Vec::new() }
    }

    /// Write following fragments in `color`.
    pub fn color(&mut self, color: Rgb)
        ensures
            final(self).current_color == color,
            final(self).fragments@ == old(self).fragments@,
    {
        self.current_color = color;
    }

    /// Add one fragment in the current color.
    pub fn append(&mut self, text: &str)
        ensures
            final(self).fragments@.len() == old(self).fragments@.len() + 1,
            final(self).current_color == old(self).current_color,
    {
        let fragment = LogFragment { color: self.current_color, text: text.to_owned() };
        self.fragments.push(fragment);
    }

    /// Commit the entry to the colored store; an empty entry is dropped.
    pub fn log(self, store: &mut Vec<Vec<LogFragment>>)
        ensures
            self.fragments@.len() == 0 ==> final(store)@ == old(store)@,
            self.fragments@.len() > 0 ==> final(store)@.len() == old(store)@.len() + 1,
    {
        append_entry(store, self.fragments);
    }
}

/// Append one whole entry to the colored store; an empty entry is dropped.
pub fn append_entry(store: &mut Vec<Vec<LogFragment>>, fragments: Vec<LogFragment>)
    ensures
        fragments@.len() == 0 ==> final(store)@ == old(store)@,
        fragments@.len() > 0 ==> final(store)@.len() == old(store)@.len() + 1,
{
    if fragments.len() == 0 {
        return ;
    }
    store.push(fragments);
}

/// Append a single fragment as its own entry.
pub fn append_fragment(store: &mut Vec<Vec<LogFragment>>, fragment: LogFragment)
    ensures
        final(store)@.len() == old(store)@.len() + 1,
{
    let mut entry: Vec<LogFragment> = Vec::new();
    entry.push(fragment);
    store.push(entry);
}

/// Empty the colored store.
pub fn clear_log(store: &mut Vec<Vec<LogFragment>>)
    ensures
        final(store)@.len() == 0,
{
    store.clear();
}

} // verus!
