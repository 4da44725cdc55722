//! Destination names: a timestamp, a counter where names collide, and the
//! source file's extension.

use crate::datetime::DateTime;
use vstd::prelude::*;

verus! {

/// The character of the decimal digit `d`.
pub open spec fn digit_char(d: nat) -> char
    recommends
        d < 10,
{
    (0x30 + d) as char
}

/// `v` in base ten, without leading zeros; `"0"` for zero.
pub open spec fn decimal_chars(v: nat) -> Seq<char>
    decreases v,
{
    if v < 10 {
        seq![digit_char(v)]
    } else {
        decimal_chars(v / 10).push(digit_char(v % 10))
    }
}

/// `v` in base ten, with zeros in front up to `width` characters; a longer
/// number is not cut.
pub open spec fn padded(v: nat, width: nat) -> Seq<char> {
    let digits = decimal_chars(v);
    if digits.len() >= width {
        digits
    } else {
        Seq::new((width - digits.len()) as nat, |i: int| '0') + digits
    }
}

/// The timestamp part of a name: `YYYY-MM-DD HH.MM.SS`.
pub open spec fn stamp_spec(dt: DateTime) -> Seq<char> {
    padded(dt.year as nat, 4) + seq!['-'] + padded(dt.month as nat, 2) + seq!['-'] + padded(
        dt.day as nat,
        2,
    ) + seq![' '] + padded(dt.hour as nat, 2) + seq!['.'] + padded(dt.minute as nat, 2)
        + seq!['.'] + padded(dt.second as nat, 2)
}

/// What follows the timestamp for the counter `n`: nothing for 0, else the
/// counter's digits, with nothing in between.
pub open spec fn counter_spec(n: nat) -> Seq<char> {
    if n == 0 {
        Seq::empty()
    } else {
        decimal_chars(n)
    }
}

/// What ends the name: a dot and the extension, or nothing where the source
/// has no extension.
pub open spec fn suffix_spec(extension: Option<Seq<char>>) -> Seq<char> {
    match extension {
        Some(e) => seq!['.'] + e,
        None => Seq::empty(),
    }
}

/// The destination name for a date and time, a counter and an extension.
pub open spec fn filename_spec(dt: DateTime, n: nat, extension: Option<Seq<char>>) -> Seq<char> {
    stamp_spec(dt) + counter_spec(n) + suffix_spec(extension)
}

/// `String::push`: the character is added at the end, and nothing else
/// changes.
#[verifier::external_body]
fn push_char(s: &mut String, c: char)
    ensures
        final(s)@ == old(s)@.push(c),
{
    s.push(c)
}

/// The number of characters of `v` in base ten.
fn digit_count(v: u64) -> (r: usize)
    ensures
        r == decimal_chars(v as nat).len(),
        1 <= r <= 20,
    decreases v,
{
    if v < 10 {
        1
    } else {
        let inner: usize = digit_count(v / 10);
        proof {
            lemma_digit_count_bound(v as nat);
        }
        inner + 1
    }
}

/// A number below 2^64 has at most 20 digits.
proof fn lemma_digit_count_bound(v: nat)
    requires
        v <= u64::MAX,
    ensures
        decimal_chars(v).len() <= 20,
{
    reveal_with_fuel(decimal_chars, 22);
}

/// Appends `v` in base ten to `s`.
fn push_decimal(s: &mut String, v: u64)
    ensures
        final(s)@ == old(s)@ + decimal_chars(v as nat),
    decreases v,
{
    if v >= 10 {
        push_decimal(s, v / 10);
    }
    let d: u8 = (v % 10) as u8;
    push_char(s, (0x30u8 + d) as char);
    proof {
        assert(final(s)@ =~= old(s)@ + decimal_chars(v as nat));
    }
}

/// Appends `v` in base ten to `s`, with zeros in front up to `width`
/// characters.
fn push_padded(s: &mut String, v: u64, width: usize)
    ensures
        final(s)@ == old(s)@ + padded(v as nat, width as nat),
{
    let count: usize = digit_count(v);
    let mut i: usize = count;
    while i < width
        invariant
            count <= i,
            i <= width || i == count,
            s@ =~= old(s)@ + Seq::new((i - count) as nat, |j: int| '0'),
        decreases width - i,
    {
        push_char(s, '0');
        i += 1;
    }
    let ghost zeros = Seq::new((i - count) as nat, |j: int| '0');
    push_decimal(s, v);
    proof {
        assert(final(s)@ =~= old(s)@ + (zeros + decimal_chars(v as nat)));
        if count >= width {
            assert(zeros + decimal_chars(v as nat) =~= decimal_chars(v as nat));
        } else {
            assert(zeros =~= Seq::new((width - count) as nat, |j: int| '0'));
        }
    }
}

/// The timestamp part of a name: `YYYY-MM-DD HH.MM.SS`, each field with
/// leading zeros up to its width.
pub fn stamp(dt: &DateTime) -> (r: String)
    ensures
        r@ == stamp_spec(*dt),
{
    let mut s = String::new();
    push_padded(&mut s, dt.year as u64, 4);
    push_char(&mut s, '-');
    push_padded(&mut s, dt.month as u64, 2);
    push_char(&mut s, '-');
    push_padded(&mut s, dt.day as u64, 2);
    push_char(&mut s, ' ');
    push_padded(&mut s, dt.hour as u64, 2);
    push_char(&mut s, '.');
    push_padded(&mut s, dt.minute as u64, 2);
    push_char(&mut s, '.');
    push_padded(&mut s, dt.second as u64, 2);
    proof {
        assert(s@ =~= stamp_spec(*dt));
    }
    s
}

/// The name of the directory that holds the files of `dt`'s year: the year
/// in base ten, without padding.
pub fn year_dir_name(dt: &DateTime) -> (r: String)
    ensures
        r@ == decimal_chars(dt.year as nat),
{
    let mut s = String::new();
    push_decimal(&mut s, dt.year as u64);
    proof {
        assert(s@ =~= decimal_chars(dt.year as nat));
    }
    s
}

/// The view of an optional extension.
pub open spec fn extension_view(extension: Option<&str>) -> Option<Seq<char>> {
    match extension {
        Some(e) => Some(e@),
        None => None,
    }
}

/// The destination name for a date and time, the counter `n` and the source
/// file's extension.
///
/// The counter 0 leaves no trace; any other follows the seconds directly. A
/// source without extension gets neither dot nor suffix.
pub fn filename(dt: &DateTime, n: usize, extension: Option<&str>) -> (r: String)
    ensures
        r@ == filename_spec(*dt, n as nat, extension_view(extension)),
{
    let mut s = stamp(dt);
    if n > 0 {
        push_decimal(&mut s, n as u64);
    }
    match extension {
        Some(e) => {
            push_char(&mut s, '.');
            s.append(e);
        },
        None => {},
    }
    proof {
        assert(s@ =~= filename_spec(*dt, n as nat, extension_view(extension)));
    }
    s
}

/// The search for a free destination name, for one source file.
///
/// The caller looks whether `candidate()` exists in the year's directory and
/// reports what it found to `decide`, until a name is settled.
#[derive(Debug)]
pub struct Namer {
    pub datetime: DateTime,
    pub extension: Option<String>,
    pub counter: usize,
}

/// What to do after a look at the destination.
#[derive(Debug)]
pub enum Decision {
    /// The name is free: use it.
    Settled(String),
    /// The name was taken: look whether this one exists.
    Probe(String),
    /// Every counter has been tried.
    Exhausted,
}

impl Namer {
    /// The view of the extension.
    pub open spec fn extension_spec(&self) -> Option<Seq<char>> {
        match self.extension {
            Some(e) => Some(e@),
            None => None,
        }
    }

    /// The name under trial.
    pub open spec fn name(&self) -> Seq<char> {
        filename_spec(self.datetime, self.counter as nat, self.extension_spec())
    }

    /// Starts the search at the name without counter.
    pub fn new(datetime: DateTime, extension: Option<String>) -> (r: Namer)
        ensures
            r.datetime == datetime,
            r.extension == extension,
            r.counter == 0,
    {
        Namer { datetime, extension, counter: 0 }
    }

    /// The name under trial.
    pub fn candidate(&self) -> (r: String)
        ensures
            r@ == self.name(),
    {
        match &self.extension {
            Some(e) => filename(&self.datetime, self.counter, Some(e.as_str())),
            None => filename(&self.datetime, self.counter, None),
        }
    }

    /// Takes in whether the name under trial exists.
    ///
    /// A free name is settled and the search stays where it is. A taken name
    /// moves the search to the next counter, whose name is handed out for the
    /// next look; past the last counter the search is exhausted and stays.
    pub fn decide(&mut self, taken: bool) -> (r: Decision)
        ensures
            final(self).datetime == old(self).datetime,
            final(self).extension == old(self).extension,
            !taken ==> final(self).counter == old(self).counter && (r matches Decision::Settled(s)
                && s@ == old(self).name()),
            taken && old(self).counter < usize::MAX ==> final(self).counter == old(self).counter + 1
                && (r matches Decision::Probe(s) && s@ == final(self).name()),
            taken && old(self).counter == usize::MAX ==> final(self).counter == old(self).counter
                && r is Exhausted,
    {
        if !taken {
            Decision::Settled(self.candidate())
        } else if self.counter < usize::MAX {
            self.counter = self.counter + 1;
            Decision::Probe(self.candidate())
        } else {
            Decision::Exhausted
        }
    }
}

/// The digits of a number are digits, and there is at least one.
pub proof fn lemma_decimal_chars_are_digits(v: nat)
    ensures
        decimal_chars(v).len() >= 1,
        forall|i: int|
            0 <= i < decimal_chars(v).len() ==> '0' <= #[trigger] decimal_chars(v)[i] <= '9',
    decreases v,
{
    if v >= 10 {
        lemma_decimal_chars_are_digits(v / 10);
    }
}

/// A source without extension gets a name of the timestamp and the counter
/// alone: it ends in a digit, so in no dot, and holds no suffix.
pub proof fn lemma_no_extension_no_suffix(dt: DateTime, n: nat)
    ensures
        filename_spec(dt, n, None) == stamp_spec(dt) + counter_spec(n),
        filename_spec(dt, n, None).len() >= 1,
        '0' <= filename_spec(dt, n, None).last() <= '9',
{
    let name = filename_spec(dt, n, None);
    assert(name =~= stamp_spec(dt) + counter_spec(n));
    lemma_decimal_chars_are_digits(dt.second as nat);
    lemma_decimal_chars_are_digits(n);
    let sec = padded(dt.second as nat, 2);
    assert(sec.len() >= 1 && '0' <= sec.last() <= '9') by {
        let d = decimal_chars(dt.second as nat);
        if d.len() < 2 {
            assert(sec.last() == d.last());
        }
    }
    assert(stamp_spec(dt).last() == sec.last());
    if n > 0 {
        assert(name.last() == decimal_chars(n).last());
    } else {
        assert(name =~= stamp_spec(dt));
    }
}

/// Different numbers have different digits.
pub proof fn lemma_decimal_chars_injective(m: nat, n: nat)
    requires
        decimal_chars(m) == decimal_chars(n),
    ensures
        m == n,
    decreases m,
{
    lemma_decimal_chars_are_digits(m / 10);
    lemma_decimal_chars_are_digits(n / 10);
    if m < 10 && n < 10 {
        assert(decimal_chars(m)[0] == digit_char(m));
        assert(decimal_chars(n)[0] == digit_char(n));
    } else if m >= 10 && n >= 10 {
        let a = decimal_chars(m / 10);
        let b = decimal_chars(n / 10);
        assert(a.push(digit_char(m % 10)).drop_last() =~= a);
        assert(b.push(digit_char(n % 10)).drop_last() =~= b);
        assert(a.push(digit_char(m % 10)).last() == digit_char(m % 10));
        assert(b.push(digit_char(n % 10)).last() == digit_char(n % 10));
        lemma_decimal_chars_injective(m / 10, n / 10);
    } else if m < 10 {
        assert(decimal_chars(m).len() == 1);
        assert(decimal_chars(n).len() == decimal_chars(n / 10).len() + 1);
    } else {
        assert(decimal_chars(n).len() == 1);
        assert(decimal_chars(m).len() == decimal_chars(m / 10).len() + 1);
    }
}

/// For one date, time and extension, different counters give different
/// names: a search that counts up never tries a name twice.
pub proof fn lemma_counters_give_distinct_names(
    dt: DateTime,
    m: nat,
    n: nat,
    extension: Option<Seq<char>>,
)
    requires
        m != n,
    ensures
        filename_spec(dt, m, extension) != filename_spec(dt, n, extension),
{
    let head = stamp_spec(dt);
    let x = counter_spec(m);
    let y = counter_spec(n);
    let tail = suffix_spec(extension);
    if filename_spec(dt, m, extension) == filename_spec(dt, n, extension) {
        assert((head + x + tail).len() == (head + y + tail).len());
        assert(x.len() == y.len());
        assert forall|i: int| 0 <= i < x.len() implies x[i] == y[i] by {
            assert((head + x + tail)[head.len() + i] == x[i]);
            assert((head + y + tail)[head.len() + i] == y[i]);
        }
        assert(x =~= y);
        lemma_decimal_chars_are_digits(m);
        lemma_decimal_chars_are_digits(n);
        if m != 0 && n != 0 {
            lemma_decimal_chars_injective(m, n);
        }
    }
}

} // verus!
