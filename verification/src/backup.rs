//! The backup name: `<name>-backup-<YYYY-MM-DD-HH-MM-SS>`, built from a
//! timestamp handed in as plain fields so that the formatting is a pure
//! function.  The one trusted item of the crate reads the clock.

use vstd::prelude::*;
use chrono::Datelike;
use chrono::Timelike;
use crate::expand::DASH;
use crate::paths::copy_range;
use crate::expand::push_all;

verus! {

/// A local-time instant, broken into plain fields.
#[derive(Clone, Copy, Debug, PartialEq, Eq, Structural)]
pub struct Timestamp {
    pub year: u32,
    pub month: u8,
    pub day: u8,
    pub hour: u8,
    pub minute: u8,
    pub second: u8,
}

impl Timestamp {
    /// The field ranges a calendar clock guarantees.
    pub open spec fn wf(self) -> bool {
        &&& 1 <= self.month <= 12
        &&& 1 <= self.day <= 31
        &&& self.hour <= 23
        &&& self.minute <= 59
        &&& self.second <= 59
    }
}

/// The decimal digits of `n`, most significant first.
pub open spec fn dec_digits(n: nat) -> Seq<u8>
    decreases n,
{
    if n < 10 {
        seq![(48 + n) as u8]
    } else {
        dec_digits(n / 10) + seq![(48 + n % 10) as u8]
    }
}

/// The decimal digits of `n`, left-padded with zeros to at least `w` bytes.
pub open spec fn dec_pad(n: nat, w: nat) -> Seq<u8> {
    if dec_digits(n).len() >= w {
        dec_digits(n)
    } else {
        Seq::new((w - dec_digits(n).len()) as nat, |i: int| 48u8) + dec_digits(n)
    }
}

/// The bytes of `-backup-`.
pub open spec fn backup_sep() -> Seq<u8> {
    seq![45u8, 98u8, 97u8, 99u8, 107u8, 117u8, 112u8, 45u8]
}

/// The name the occupant of the link path is renamed to: the name itself,
/// `-backup-`, and the timestamp as `YYYY-MM-DD-HH-MM-SS`.
pub open spec fn spec_backup_file_name(name: Seq<u8>, ts: Timestamp) -> Seq<u8> {
    name + backup_sep() + dec_pad(ts.year as nat, 4) + seq![DASH] + dec_pad(ts.month as nat, 2)
        + seq![DASH] + dec_pad(ts.day as nat, 2) + seq![DASH] + dec_pad(ts.hour as nat, 2)
        + seq![DASH] + dec_pad(ts.minute as nat, 2) + seq![DASH] + dec_pad(ts.second as nat, 2)
}

pub proof fn lemma_dec_digits_len(n: nat)
    ensures
        dec_digits(n).len() >= 1,
    decreases n,
{
    if n < 10 {
    } else {
        lemma_dec_digits_len(n / 10);
    }
}

pub proof fn lemma_dec_pad_len(n: nat, w: nat)
    ensures
        dec_pad(n, w).len() >= w,
        dec_pad(n, w).len() >= 1,
{
    lemma_dec_digits_len(n);
}

/// The backup name is strictly longer than the name itself, so the two can
/// never denote the same directory entry.
pub proof fn lemma_backup_name_longer(name: Seq<u8>, ts: Timestamp)
    ensures
        spec_backup_file_name(name, ts).len() > name.len(),
{
    lemma_dec_pad_len(ts.year as nat, 4);
    lemma_dec_pad_len(ts.month as nat, 2);
    lemma_dec_pad_len(ts.day as nat, 2);
    lemma_dec_pad_len(ts.hour as nat, 2);
    lemma_dec_pad_len(ts.minute as nat, 2);
    lemma_dec_pad_len(ts.second as nat, 2);
}

/// The decimal digits of `n`, most significant first.
fn fmt_dec(n: u32) -> (r: Vec<u8>)
    ensures
        r@ == dec_digits(n as nat),
    decreases n,
{
    if n < 10 {
        let mut v: Vec<u8> = Vec::new();
        v.push(48 + (n as u8));
        proof {
            assert(v@ =~= seq![(48 + n as nat) as u8]);
        }
        v
    } else {
        let mut v = fmt_dec(n / 10);
        v.push(48 + ((n % 10) as u8));
        proof {
            assert(v@ =~= dec_digits((n / 10) as nat) + seq![(48 + (n as nat) % 10) as u8]);
        }
        v
    }
}

/// The decimal digits of `n`, left-padded with zeros to at least `w` bytes.
pub fn fmt_dec_pad(n: u32, w: usize) -> (r: Vec<u8>)
    ensures
        r@ == dec_pad(n as nat, w as nat),
{
    let d = fmt_dec(n);
    if d.len() >= w {
        d
    } else {
        let mut v: Vec<u8> = Vec::new();
        let pad = w - d.len();
        let mut i: usize = 0;
        while i < pad
            invariant
                i <= pad,
                v@ =~= Seq::new(i as nat, |k: int| 48u8),
            decreases pad - i,
        {
            v.push(48);
            i = i + 1;
            proof {
                assert(v@ =~= Seq::new(i as nat, |k: int| 48u8));
            }
        }
        push_all(&mut v, &d);
        proof {
            assert(v@ =~= Seq::new((w - d@.len()) as nat, |k: int| 48u8) + dec_digits(n as nat));
        }
        v
    }
}

/// The backup name for `name` at the instant `ts`.
pub fn backup_file_name(name: &Vec<u8>, ts: &Timestamp) -> (r: Vec<u8>)
    ensures
        r@ == spec_backup_file_name(name@, *ts),
{
    let mut out = copy_range(name, 0, name.len());
    proof {
        assert(out@ =~= name@);
    }
    // "-backup-"
    out.push(45);
    out.push(98);
    out.push(97);
    out.push(99);
    out.push(107);
    out.push(117);
    out.push(112);
    out.push(45);
    proof {
        assert(out@ =~= name@ + backup_sep());
    }
    let mut piece = fmt_dec_pad(ts.year, 4);
    push_all(&mut out, &piece);
    out.push(DASH);
    piece = fmt_dec_pad(ts.month as u32, 2);
    push_all(&mut out, &piece);
    out.push(DASH);
    piece = fmt_dec_pad(ts.day as u32, 2);
    push_all(&mut out, &piece);
    out.push(DASH);
    piece = fmt_dec_pad(ts.hour as u32, 2);
    push_all(&mut out, &piece);
    out.push(DASH);
    piece = fmt_dec_pad(ts.minute as u32, 2);
    push_all(&mut out, &piece);
    out.push(DASH);
    piece = fmt_dec_pad(ts.second as u32, 2);
    push_all(&mut out, &piece);
    proof {
        assert(out@ =~= spec_backup_file_name(name@, *ts));
    }
    out
}

/// The current local time, as plain calendar fields.
///
/// Relies on `chrono::Local::now` and chrono's `Datelike` / `Timelike`
/// accessors: `month()` is 1..=12, `day()` is 1..=31, `hour()` is 0..=23,
/// `minute()` and `second()` are 0..=59.  Nothing is claimed about the
/// year.
#[verifier::external_body]
pub fn local_now() -> (t: Timestamp)
    ensures
        t.wf(),
{
    let now = chrono::Local::now();
    Timestamp {
        year: now.year() as u32,
        month: now.month() as u8,
        day: now.day() as u8,
        hour: now.hour() as u8,
        minute: now.minute() as u8,
        second: now.second() as u8,
    }
}

} // verus!
