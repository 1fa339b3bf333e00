//! Durations as they cross the wire: a plain seconds/nanoseconds pair,
//! printed and read in the human form (`"15s"`, `"1m 30s"`, `"3ms"`).
//!
//! The printed form breaks a duration into years (365.25 days), months
//! (30.44 days), days, hours, minutes, seconds, milliseconds, microseconds
//! and nanoseconds, joined by single spaces, omitting zero parts; the zero
//! duration prints as `"0s"`. The reader accepts any sequence of
//! `<integer><unit>` items with optional whitespace between items.
use vstd::prelude::*;

use crate::json::{is_ws, skip_ws};
use crate::text::{all_digits, dec_digits, dec_val, is_digit};

verus! {

broadcast use vstd::seq::group_seq_axioms;

pub const NANOS_PER_SEC: u32 = 1_000_000_000;

/// A span of time: whole seconds and a sub-second remainder.
#[derive(Debug, Clone, Copy, PartialEq, Eq, Structural)]
pub struct Dur {
    pub secs: u64,
    pub nanos: u32,
}

impl Dur {
    pub open spec fn wf(self) -> bool {
        self.nanos < NANOS_PER_SEC
    }

    pub fn from_secs(secs: u64) -> (r: Dur)
        ensures
            r == (Dur { secs, nanos: 0u32 }),
            r.wf(),
    {
        Dur { secs, nanos: 0 }
    }

    pub open spec fn spec_le(self, other: Dur) -> bool {
        self.secs < other.secs || (self.secs == other.secs && self.nanos <= other.nanos)
    }

    /// Whether this span is no longer than `other`.
    pub fn le(self, other: Dur) -> (r: bool)
        ensures
            r == self.spec_le(other),
    {
        self.secs < other.secs || (self.secs == other.secs && self.nanos <= other.nanos)
    }

    /// Saturating sum of two spans.
    pub fn saturating_add(self, other: Dur) -> (r: Dur)
        requires
            self.wf(),
            other.wf(),
        ensures
            r.wf(),
            r.secs + r.nanos * 1_000_000_000 <= self.secs + other.secs + u64::MAX,
            self.secs + other.secs + 1 <= u64::MAX ==> (r.secs == self.secs + other.secs
                + (self.nanos + other.nanos) / (NANOS_PER_SEC as int) && r.nanos == (self.nanos
                + other.nanos) % (NANOS_PER_SEC as int)),
    {
        let ns = self.nanos + other.nanos;
        let carry: u64 = (ns / NANOS_PER_SEC) as u64;
        let nanos = ns % NANOS_PER_SEC;
        let secs = match self.secs.checked_add(other.secs) {
            Some(s) => match s.checked_add(carry) {
                Some(s2) => s2,
                None => u64::MAX,
            },
            None => u64::MAX,
        };
        Dur { secs, nanos }
    }
}

// ------------------------------------------------------------------
// Printing.
// ------------------------------------------------------------------
/// One printed part: the value followed by its unit name.
pub open spec fn item_text(v: nat, unit: Seq<char>) -> Seq<char> {
    dec_digits(v) + unit
}

/// Parts joined by single spaces.
pub open spec fn render(items: Seq<(nat, Seq<char>)>) -> Seq<char>
    decreases items.len(),
{
    if items.len() == 0 {
        Seq::empty()
    } else if items.len() == 1 {
        item_text(items[0].0, items[0].1)
    } else {
        item_text(items[0].0, items[0].1) + seq![' '] + render(items.skip(1))
    }
}

pub open spec fn plural_unit(base: Seq<char>, v: nat) -> Seq<char> {
    if v > 1 {
        base + seq!['s']
    } else {
        base
    }
}

/// The printed parts of a duration, in order, zero parts left out.
pub open spec fn dur_items(secs: nat, nanos: nat) -> Seq<(nat, Seq<char>)> {
    let years = secs / 31_557_600;
    let ydays = secs % 31_557_600;
    let months = ydays / 2_630_016;
    let mdays = ydays % 2_630_016;
    let days = mdays / 86400;
    let day_secs = mdays % 86400;
    let hours = day_secs / 3600;
    let minutes = day_secs % 3600 / 60;
    let seconds = day_secs % 60;
    let millis = nanos / 1_000_000;
    let micros = nanos / 1000 % 1000;
    let nanosec = nanos % 1000;
    let l0 = Seq::<(nat, Seq<char>)>::empty();
    let l1 = if years > 0 {
        l0.push((years, plural_unit(seq!['y', 'e', 'a', 'r'], years)))
    } else {
        l0
    };
    let l2 = if months > 0 {
        l1.push((months, plural_unit(seq!['m', 'o', 'n', 't', 'h'], months)))
    } else {
        l1
    };
    let l3 = if days > 0 {
        l2.push((days, plural_unit(seq!['d', 'a', 'y'], days)))
    } else {
        l2
    };
    let l4 = if hours > 0 {
        l3.push((hours, seq!['h']))
    } else {
        l3
    };
    let l5 = if minutes > 0 {
        l4.push((minutes, seq!['m']))
    } else {
        l4
    };
    let l6 = if seconds > 0 {
        l5.push((seconds, seq!['s']))
    } else {
        l5
    };
    let l7 = if millis > 0 {
        l6.push((millis, seq!['m', 's']))
    } else {
        l6
    };
    let l8 = if micros > 0 {
        l7.push((micros, seq!['u', 's']))
    } else {
        l7
    };
    let l9 = if nanosec > 0 {
        l8.push((nanosec, seq!['n', 's']))
    } else {
        l8
    };
    l9
}

/// The printed form of a duration.
pub open spec fn spec_fmt_dur(d: Dur) -> Seq<char> {
    if d.secs == 0 && d.nanos == 0 {
        seq!['0', 's']
    } else {
        render(dur_items(d.secs as nat, d.nanos as nat))
    }
}

proof fn lemma_render_snoc(items: Seq<(nat, Seq<char>)>, x: (nat, Seq<char>))
    ensures
        render(items.push(x)) == if items.len() == 0 {
            item_text(x.0, x.1)
        } else {
            render(items) + seq![' '] + item_text(x.0, x.1)
        },
    decreases items.len(),
{
    let w = items.push(x);
    if items.len() == 0 {
        assert(w.len() == 1);
        assert(w[0] == x);
    } else {
        assert(w[0] == items[0]);
        assert(w.skip(1) =~= items.skip(1).push(x));
        lemma_render_snoc(items.skip(1), x);
        if items.len() == 1 {
            assert(items.skip(1).len() == 0);
            assert(render(w) =~= render(items) + seq![' '] + item_text(x.0, x.1));
        } else {
            assert(render(w) =~= render(items) + seq![' '] + item_text(x.0, x.1));
        }
    }
}

/// Append one nonzero part.
fn push_item(out: &mut Vec<char>, started: bool, v: u64, unit: &str)
    requires
        v >= 1,
        started <==> old(out)@.len() > 0,
    ensures
        final(out)@ == if old(out)@.len() == 0 {
            old(out)@ + item_text(v as nat, unit@)
        } else {
            old(out)@ + seq![' '] + item_text(v as nat, unit@)
        },
        final(out)@.len() > 0,
{
    if started {
        out.push(' ');
    }
    crate::text::push_u64(out, v);
    crate::json::push_str_chars(out, unit);
    proof {
        crate::text::lemma_dec_digits_shape(v as nat);
        if old(out)@.len() == 0 {
            assert(out@ =~= old(out)@ + item_text(v as nat, unit@));
        } else {
            assert(out@ =~= old(out)@ + seq![' '] + item_text(v as nat, unit@));
        }
    }
}

/// The human form of a duration, as the wire carries it.
#[verifier::rlimit(100)]
#[verifier::spinoff_prover]
pub fn fmt_dur(d: Dur) -> (r: String)
    ensures
        r@ == spec_fmt_dur(d),
{
    if d.secs == 0 && d.nanos == 0 {
        let mut out: Vec<char> = Vec::new();
        out.push('0');
        out.push('s');
        proof {
            assert(out@ =~= seq!['0', 's']);
        }
        return crate::text::string_from_chars(&out);
    }
    let secs = d.secs;
    let nanos = d.nanos;
    let years = secs / 31_557_600;
    let ydays = secs % 31_557_600;
    let months = ydays / 2_630_016;
    let mdays = ydays % 2_630_016;
    let days = mdays / 86400;
    let day_secs = mdays % 86400;
    let hours = day_secs / 3600;
    let minutes = day_secs % 3600 / 60;
    let seconds = day_secs % 60;
    let millis = (nanos / 1_000_000) as u64;
    let micros = (nanos / 1000 % 1000) as u64;
    let nanosec = (nanos % 1000) as u64;

    let ghost gitems = dur_items(d.secs as nat, d.nanos as nat);
    let mut out: Vec<char> = Vec::new();
    let ghost l0 = Seq::<(nat, Seq<char>)>::empty();
    assert(render(l0) =~= Seq::<char>::empty());

    let ghost mut cur = l0;
    if years > 0 {
        if years > 1 {
            push_item(&mut out, false, years, "years");
            proof {
                reveal_strlit("years");
                assert("years"@ =~= plural_unit(seq!['y', 'e', 'a', 'r'], years as nat));
            }
        } else {
            push_item(&mut out, false, years, "year");
            proof {
                reveal_strlit("year");
                assert("year"@ =~= plural_unit(seq!['y', 'e', 'a', 'r'], years as nat));
            }
        }
        proof {
            lemma_render_snoc(cur, (years as nat, plural_unit(seq!['y', 'e', 'a', 'r'], years as nat)));
            cur = cur.push((years as nat, plural_unit(seq!['y', 'e', 'a', 'r'], years as nat)));
            assert(out@ == render(cur));
        }
    }
    if months > 0 {
        let started = out.len() > 0;
        if months > 1 {
            push_item(&mut out, started, months, "months");
            proof {
                reveal_strlit("months");
                assert("months"@ =~= plural_unit(seq!['m', 'o', 'n', 't', 'h'], months as nat));
            }
        } else {
            push_item(&mut out, started, months, "month");
            proof {
                reveal_strlit("month");
                assert("month"@ =~= plural_unit(seq!['m', 'o', 'n', 't', 'h'], months as nat));
            }
        }
        proof {
            lemma_render_snoc(cur, (months as nat, plural_unit(seq!['m', 'o', 'n', 't', 'h'], months as nat)));
            assert(cur.len() == 0 <==> render(cur).len() == 0) by {
                if cur.len() > 0 {
                    lemma_item_text_len(cur[0].0, cur[0].1);
                }
            }
            cur = cur.push((months as nat, plural_unit(seq!['m', 'o', 'n', 't', 'h'], months as nat)));
            assert(out@ == render(cur));
        }
    }
    if days > 0 {
        let started = out.len() > 0;
        if days > 1 {
            push_item(&mut out, started, days, "days");
            proof {
                reveal_strlit("days");
                assert("days"@ =~= plural_unit(seq!['d', 'a', 'y'], days as nat));
            }
        } else {
            push_item(&mut out, started, days, "day");
            proof {
                reveal_strlit("day");
                assert("day"@ =~= plural_unit(seq!['d', 'a', 'y'], days as nat));
            }
        }
        proof {
            lemma_render_snoc(cur, (days as nat, plural_unit(seq!['d', 'a', 'y'], days as nat)));
            assert(cur.len() == 0 <==> render(cur).len() == 0) by {
                if cur.len() > 0 {
                    lemma_item_text_len(cur[0].0, cur[0].1);
                }
            }
            cur = cur.push((days as nat, plural_unit(seq!['d', 'a', 'y'], days as nat)));
            assert(out@ == render(cur));
        }
    }
    if hours > 0 {
        let started = out.len() > 0;
        push_item(&mut out, started, hours, "h");
        proof {
            reveal_strlit("h");
            assert("h"@ =~= seq!['h']);
            lemma_render_snoc(cur, (hours as nat, seq!['h']));
            assert(cur.len() == 0 <==> render(cur).len() == 0) by {
                if cur.len() > 0 {
                    lemma_item_text_len(cur[0].0, cur[0].1);
                }
            }
            cur = cur.push((hours as nat, seq!['h']));
            assert(out@ == render(cur));
        }
    }
    if minutes > 0 {
        let started = out.len() > 0;
        push_item(&mut out, started, minutes, "m");
        proof {
            reveal_strlit("m");
            assert("m"@ =~= seq!['m']);
            lemma_render_snoc(cur, (minutes as nat, seq!['m']));
            assert(cur.len() == 0 <==> render(cur).len() == 0) by {
                if cur.len() > 0 {
                    lemma_item_text_len(cur[0].0, cur[0].1);
                }
            }
            cur = cur.push((minutes as nat, seq!['m']));
            assert(out@ == render(cur));
        }
    }
    if seconds > 0 {
        let started = out.len() > 0;
        push_item(&mut out, started, seconds, "s");
        proof {
            reveal_strlit("s");
            assert("s"@ =~= seq!['s']);
            lemma_render_snoc(cur, (seconds as nat, seq!['s']));
            assert(cur.len() == 0 <==> render(cur).len() == 0) by {
                if cur.len() > 0 {
                    lemma_item_text_len(cur[0].0, cur[0].1);
                }
            }
            cur = cur.push((seconds as nat, seq!['s']));
            assert(out@ == render(cur));
        }
    }
    if millis > 0 {
        let started = out.len() > 0;
        push_item(&mut out, started, millis, "ms");
        proof {
            reveal_strlit("ms");
            assert("ms"@ =~= seq!['m', 's']);
            lemma_render_snoc(cur, (millis as nat, seq!['m', 's']));
            assert(cur.len() == 0 <==> render(cur).len() == 0) by {
                if cur.len() > 0 {
                    lemma_item_text_len(cur[0].0, cur[0].1);
                }
            }
            cur = cur.push((millis as nat, seq!['m', 's']));
            assert(out@ == render(cur));
        }
    }
    if micros > 0 {
        let started = out.len() > 0;
        push_item(&mut out, started, micros, "us");
        proof {
            reveal_strlit("us");
            assert("us"@ =~= seq!['u', 's']);
            lemma_render_snoc(cur, (micros as nat, seq!['u', 's']));
            assert(cur.len() == 0 <==> render(cur).len() == 0) by {
                if cur.len() > 0 {
                    lemma_item_text_len(cur[0].0, cur[0].1);
                }
            }
            cur = cur.push((micros as nat, seq!['u', 's']));
            assert(out@ == render(cur));
        }
    }
    if nanosec > 0 {
        let started = out.len() > 0;
        push_item(&mut out, started, nanosec, "ns");
        proof {
            reveal_strlit("ns");
            assert("ns"@ =~= seq!['n', 's']);
            lemma_render_snoc(cur, (nanosec as nat, seq!['n', 's']));
            assert(cur.len() == 0 <==> render(cur).len() == 0) by {
                if cur.len() > 0 {
                    lemma_item_text_len(cur[0].0, cur[0].1);
                }
            }
            cur = cur.push((nanosec as nat, seq!['n', 's']));
            assert(out@ == render(cur));
        }
    }
    proof {
        assert(cur =~= gitems);
        assert(out@ == spec_fmt_dur(d));
    }
    crate::text::string_from_chars(&out)
}

proof fn lemma_item_text_len(v: nat, unit: Seq<char>)
    ensures
        item_text(v, unit).len() >= 1,
{
    crate::text::lemma_dec_digits_shape(v);
}


// ------------------------------------------------------------------
// Reading.
// ------------------------------------------------------------------
pub open spec fn is_alpha(c: char) -> bool {
    ('a' <= c && c <= 'z') || ('A' <= c && c <= 'Z')
}

/// The longest prefix of digits, and what follows.
pub open spec fn take_digits(s: Seq<char>) -> (Seq<char>, Seq<char>)
    decreases s.len(),
{
    if s.len() > 0 && is_digit(s[0]) {
        let (l, r) = take_digits(s.skip(1));
        (seq![s[0]] + l, r)
    } else {
        (Seq::empty(), s)
    }
}

/// The longest prefix of letters, and what follows.
pub open spec fn take_alpha(s: Seq<char>) -> (Seq<char>, Seq<char>)
    decreases s.len(),
{
    if s.len() > 0 && is_alpha(s[0]) {
        let (l, r) = take_alpha(s.skip(1));
        (seq![s[0]] + l, r)
    } else {
        (Seq::empty(), s)
    }
}

/// The seconds and nanosecond weight of a unit name.
pub open spec fn unit_of(u: Seq<char>) -> Option<(nat, nat)> {
    if u == "nanos"@ || u == "nsec"@ || u == "ns"@ {
        Some((0 as nat, 1 as nat))
    } else if u == "usec"@ || u == "us"@ {
        Some((0 as nat, 1000 as nat))
    } else if u == "millis"@ || u == "msec"@ || u == "ms"@ {
        Some((0 as nat, 1000000 as nat))
    } else if u == "seconds"@ || u == "second"@ || u == "secs"@ || u == "sec"@ || u == "s"@ {
        Some((1 as nat, 0 as nat))
    } else if u == "minutes"@ || u == "minute"@ || u == "mins"@ || u == "min"@ || u == "m"@ {
        Some((60 as nat, 0 as nat))
    } else if u == "hours"@ || u == "hour"@ || u == "hrs"@ || u == "hr"@ || u == "h"@ {
        Some((3600 as nat, 0 as nat))
    } else if u == "days"@ || u == "day"@ || u == "d"@ {
        Some((86400 as nat, 0 as nat))
    } else if u == "weeks"@ || u == "week"@ || u == "wks"@ || u == "wk"@ || u == "w"@ {
        Some((604800 as nat, 0 as nat))
    } else if u == "months"@ || u == "month"@ || u == "M"@ {
        Some((2630016 as nat, 0 as nat))
    } else if u == "years"@ || u == "year"@ || u == "yrs"@ || u == "yr"@ || u == "y"@ {
        Some((31557600 as nat, 0 as nat))
    } else {
        None
    }
}

pub open spec fn pow10(n: nat) -> nat
    decreases n,
{
    if n == 0 {
        1
    } else {
        10 * pow10((n - 1) as nat)
    }
}

/// Where a fractional part lands for a unit, and its weight there:
/// sub-second units and minutes weigh into nanoseconds, hour-and-up
/// units into seconds; a fractional nanosecond count is refused, as the
/// reference grammar refuses it.
pub open spec fn frac_weight(m: (nat, nat)) -> Option<(bool, nat)> {
    if m == ((0 as nat, 1 as nat)) {
        None
    } else if m.0 == 0 {
        Some((false, m.1))
    } else if m == ((1 as nat, 0 as nat)) {
        Some((false, 1000000000 as nat))
    } else if m == ((60 as nat, 0 as nat)) {
        Some((false, 60000000000 as nat))
    } else {
        Some((true, m.0))
    }
}

/// Accumulated seconds and nanoseconds of the items of `s`; `None` on a
/// malformed item, an unknown unit, an inexact or oversized fraction,
/// an empty input, or overflow.
pub open spec fn spec_parse_dur_items(s: Seq<char>, acc_s: nat, acc_n: nat, seen: bool) -> Option<
    (nat, nat),
>
    decreases s.len(),
{
    let t = skip_ws(s);
    if t.len() > s.len() {
        None
    } else if t.len() == 0 {
        if seen {
            Some((acc_s, acc_n))
        } else {
            None
        }
    } else {
        let (digits, r1) = take_digits(t);
        if digits.len() == 0 {
            None
        } else if dec_val(digits) > u64::MAX {
            None
        } else {
            let v = dec_val(digits);
            if r1.len() > 0 && r1[0] == '.' {
                let (fdigits, rf) = take_digits(r1.skip(1));
                if fdigits.len() == 0 {
                    None
                } else if pow10(fdigits.len()) > u64::MAX {
                    None
                } else if dec_val(fdigits) > u64::MAX {
                    None
                } else {
                    let num = dec_val(fdigits);
                    let den = pow10(fdigits.len());
                    let (unit, r2) = take_alpha(rf);
                    if unit.len() == 0 {
                        None
                    } else {
                        match unit_of(unit) {
                            None => None,
                            Some(m) => match frac_weight(m) {
                                None => None,
                                Some(fw) => {
                                    if num * fw.1 > u64::MAX {
                                        None
                                    } else if (num * fw.1) % den != 0 {
                                        None
                                    } else {
                                        let fc = num * fw.1 / den;
                                        let add_s: nat = if fw.0 {
                                            fc
                                        } else {
                                            0
                                        };
                                        let add_n: nat = if fw.0 {
                                            0
                                        } else {
                                            fc
                                        };
                                        if v * m.0 > u64::MAX || acc_s + v * m.0 + add_s
                                            > u64::MAX || acc_n + v * m.1 + add_n > u128::MAX {
                                            None
                                        } else if r2.len() < s.len() {
                                            spec_parse_dur_items(
                                                r2,
                                                acc_s + v * m.0 + add_s,
                                                acc_n + v * m.1 + add_n,
                                                true,
                                            )
                                        } else {
                                            None
                                        }
                                    }
                                },
                            },
                        }
                    }
                }
            } else {
                let (unit, r2) = take_alpha(r1);
                if unit.len() == 0 {
                    None
                } else {
                    match unit_of(unit) {
                        None => None,
                        Some(m) => {
                            if v * m.0 > u64::MAX || acc_s + v * m.0 > u64::MAX || acc_n + v * m.1
                                > u128::MAX {
                                None
                            } else if r2.len() < s.len() {
                                spec_parse_dur_items(
                                    r2,
                                    acc_s + v * m.0,
                                    acc_n + v * m.1,
                                    true,
                                )
                            } else {
                                None
                            }
                        },
                    }
                }
            }
        }
    }
}

/// What a duration text denotes. The bare text `0` is the zero span;
/// anything else is a run of `<integer>[.fraction]<unit>` items.
pub open spec fn spec_parse_dur(s: Seq<char>) -> Option<Dur> {
    if s == "0"@ {
        Some(Dur { secs: 0, nanos: 0 })
    } else {
        spec_parse_dur_items_total(s)
    }
}

pub open spec fn spec_parse_dur_items_total(s: Seq<char>) -> Option<Dur> {
    match spec_parse_dur_items(s, 0, 0, false) {
        None => None,
        Some(p) => {
            let total = p.0 + p.1 / 1_000_000_000;
            if total <= u64::MAX {
                Some(Dur { secs: total as u64, nanos: (p.1 % 1_000_000_000) as u32 })
            } else {
                None
            }
        },
    }
}

/// Whether the characters of `u` read exactly as `s`.
fn chars_eq_str(u: &Vec<char>, s: &str) -> (r: bool)
    ensures
        r == (u@ == s@),
{
    let cs = crate::text::str_chars(s);
    if u.len() != cs.len() {
        proof {
            assert(u@.len() != s@.len());
        }
        return false;
    }
    let mut i: usize = 0;
    while i < u.len()
        invariant
            cs@ == s@,
            u@.len() == cs@.len(),
            0 <= i <= u@.len(),
            forall|k: int| 0 <= k < i ==> u@[k] == cs@[k],
        decreases u@.len() - i,
    {
        if u[i] != cs[i] {
            return false;
        }
        i = i + 1;
    }
    proof {
        assert(u@ =~= s@);
    }
    true
}

fn unit_mult(u: &Vec<char>) -> (r: Option<(u64, u64)>)
    ensures
        match r {
            Some(m) => unit_of(u@) == Some((m.0 as nat, m.1 as nat)) && m.0 <= 31557600
                && m.1 <= 1000000,
            None => unit_of(u@) is None,
        },
{
    if chars_eq_str(u, "nanos") || chars_eq_str(u, "nsec") || chars_eq_str(u, "ns") {
        Some((0, 1))
    } else if chars_eq_str(u, "usec") || chars_eq_str(u, "us") {
        Some((0, 1000))
    } else if chars_eq_str(u, "millis") || chars_eq_str(u, "msec") || chars_eq_str(u, "ms") {
        Some((0, 1000000))
    } else if chars_eq_str(u, "seconds") || chars_eq_str(u, "second") || chars_eq_str(u, "secs")
        || chars_eq_str(u, "sec") || chars_eq_str(u, "s") {
        Some((1, 0))
    } else if chars_eq_str(u, "minutes") || chars_eq_str(u, "minute") || chars_eq_str(u, "mins")
        || chars_eq_str(u, "min") || chars_eq_str(u, "m") {
        Some((60, 0))
    } else if chars_eq_str(u, "hours") || chars_eq_str(u, "hour") || chars_eq_str(u, "hrs")
        || chars_eq_str(u, "hr") || chars_eq_str(u, "h") {
        Some((3600, 0))
    } else if chars_eq_str(u, "days") || chars_eq_str(u, "day") || chars_eq_str(u, "d") {
        Some((86400, 0))
    } else if chars_eq_str(u, "weeks") || chars_eq_str(u, "week") || chars_eq_str(u, "wks")
        || chars_eq_str(u, "wk") || chars_eq_str(u, "w") {
        Some((604800, 0))
    } else if chars_eq_str(u, "months") || chars_eq_str(u, "month") || chars_eq_str(u, "M") {
        Some((2630016, 0))
    } else if chars_eq_str(u, "years") || chars_eq_str(u, "year") || chars_eq_str(u, "yrs")
        || chars_eq_str(u, "yr") || chars_eq_str(u, "y") {
        Some((31557600, 0))
    } else {
        None
    }
}

/// Read a duration from its human form: the bare text `0`, or items of
/// `<integer>[.fraction]<unit>`; fractions must weigh to a whole number
/// of the unit's nanoseconds (or seconds, hour and up), as the
/// reference grammar demands.
#[verifier::rlimit(100)]
#[verifier::spinoff_prover]
pub fn parse_dur(s: &str) -> (r: Option<Dur>)
    ensures
        r == spec_parse_dur(s@),
        r is Some ==> r.unwrap().wf(),
{
    if crate::text::str_eq(s, "0") {
        return Some(Dur { secs: 0, nanos: 0 });
    }
    let v = crate::text::str_chars(s);
    let mut cur: usize = 0;
    let mut acc_s: u64 = 0;
    let mut acc_n: u128 = 0;
    let mut seen = false;
    proof {
        assert(v@.skip(0) =~= s@);
    }
    loop
        invariant
            v@ == s@,
            s@ != "0"@,
            0 <= cur <= v@.len(),
            spec_parse_dur_items(s@, 0, 0, false) == spec_parse_dur_items(
                v@.skip(cur as int),
                acc_s as nat,
                acc_n as nat,
                seen,
            ),
        ensures
            seen,
            cur == v@.len(),
            spec_parse_dur_items(s@, 0, 0, false) == Some((acc_s as nat, acc_n as nat)),
        decreases v@.len() - cur,
    {
        let t0 = crate::json::ws_to(&v, cur);
        let ghost t = v@.skip(t0 as int);
        proof {
            assert(t.len() == v@.len() - t0);
        }
        if t0 == v.len() {
            if seen {
                cur = t0;
                proof {
                    assert(v@.skip(cur as int).len() == 0);
                    assert(skip_ws(v@.skip(cur as int)).len() == 0);
                }
                break;
            } else {
                return None;
            }
        }
        // the integer part
        let mut dend = t0;
        let mut dv: Vec<char> = Vec::new();
        while dend < v.len() && '0' <= v[dend] && v[dend] <= '9'
            invariant
                t0 <= dend <= v@.len(),
                all_digits(dv@),
                take_digits(v@.skip(t0 as int)).0 == dv@ + take_digits(v@.skip(dend as int)).0,
                take_digits(v@.skip(t0 as int)).1 == take_digits(v@.skip(dend as int)).1,
            decreases v@.len() - dend,
        {
            proof {
                assert(v@.skip(dend as int)[0] == v@[dend as int]);
                assert(v@.skip(dend as int).skip(1) =~= v@.skip(dend + 1));
                assert(dv@ + (seq![v@[dend as int]] + take_digits(v@.skip(dend + 1)).0) =~= (dv@
                    + seq![v@[dend as int]]) + take_digits(v@.skip(dend + 1)).0);
            }
            dv.push(v[dend]);
            proof {
                assert(forall|k: int| 0 <= k < dv@.len() ==> is_digit(#[trigger] dv@[k]));
            }
            dend = dend + 1;
        }
        proof {
            assert(v@.skip(dend as int).len() == v@.len() - dend);
            if dend < v@.len() {
                assert(v@.skip(dend as int)[0] == v@[dend as int]);
            }
            assert(take_digits(v@.skip(dend as int)).0 =~= Seq::<char>::empty());
            assert(dv@ + Seq::<char>::empty() =~= dv@);
            assert(take_digits(t).0 == dv@);
            assert(take_digits(t).1 == v@.skip(dend as int));
        }
        if dv.len() == 0 {
            return None;
        }
        let val = match crate::text::parse_u64_chars(&dv) {
            Some(x) => x,
            None => {
                return None;
            }
        };
        // the optional fraction
        let ghost r1 = v@.skip(dend as int);
        let has_frac = dend < v.len() && v[dend] == '.';
        proof {
            if dend < v@.len() {
                assert(r1[0] == v@[dend as int]);
            }
            assert(has_frac == (r1.len() > 0 && r1[0] == '.'));
        }
        let mut add_s: u64 = 0;
        let mut add_n: u64 = 0;
        let mut ustart = dend;
        if has_frac {
            let fstart = dend + 1;
            proof {
                assert(r1.skip(1) =~= v@.skip(fstart as int));
            }
            let mut fend = fstart;
            let mut fdv: Vec<char> = Vec::new();
            while fend < v.len() && '0' <= v[fend] && v[fend] <= '9'
                invariant
                    fstart <= fend <= v@.len(),
                    all_digits(fdv@),
                    take_digits(v@.skip(fstart as int)).0 == fdv@ + take_digits(
                        v@.skip(fend as int),
                    ).0,
                    take_digits(v@.skip(fstart as int)).1 == take_digits(v@.skip(fend as int)).1,
                decreases v@.len() - fend,
            {
                proof {
                    assert(v@.skip(fend as int)[0] == v@[fend as int]);
                    assert(v@.skip(fend as int).skip(1) =~= v@.skip(fend + 1));
                    assert(fdv@ + (seq![v@[fend as int]] + take_digits(v@.skip(fend + 1)).0)
                        =~= (fdv@ + seq![v@[fend as int]]) + take_digits(v@.skip(fend + 1)).0);
                }
                fdv.push(v[fend]);
                proof {
                    assert(forall|k: int| 0 <= k < fdv@.len() ==> is_digit(#[trigger] fdv@[k]));
                }
                fend = fend + 1;
            }
            proof {
                assert(v@.skip(fend as int).len() == v@.len() - fend);
                if fend < v@.len() {
                    assert(v@.skip(fend as int)[0] == v@[fend as int]);
                }
                assert(take_digits(v@.skip(fend as int)).0 =~= Seq::<char>::empty());
                assert(fdv@ + Seq::<char>::empty() =~= fdv@);
                assert(take_digits(v@.skip(fstart as int)).0 == fdv@);
                assert(take_digits(v@.skip(fstart as int)).1 == v@.skip(fend as int));
            }
            if fdv.len() == 0 {
                return None;
            }
            let mut den: u64 = 1;
            let mut j: usize = 0;
            let mut den_overflow = false;
            proof {
                assert(pow10(0) == 1);
            }
            while j < fdv.len() && !den_overflow
                invariant
                    0 <= j <= fdv@.len(),
                    !den_overflow ==> den as nat == pow10(j as nat),
                    den_overflow ==> pow10(fdv@.len()) > u64::MAX,
                decreases fdv@.len() - j + (if den_overflow {
                    0int
                } else {
                    1int
                }),
            {
                match den.checked_mul(10) {
                    Some(x) => {
                        proof {
                            assert(pow10((j + 1) as nat) == 10 * pow10(j as nat));
                        }
                        den = x;
                        j = j + 1;
                    },
                    None => {
                        proof {
                            assert(pow10((j + 1) as nat) == 10 * pow10(j as nat));
                            lemma_pow10_mono((j + 1) as nat, fdv@.len());
                        }
                        den_overflow = true;
                    },
                }
            }
            if den_overflow {
                return None;
            }
            let num = match crate::text::parse_u64_chars(&fdv) {
                Some(x) => x,
                None => {
                    return None;
                }
            };
            // the unit letters, read ahead so the weight is known
            let ghost rf = v@.skip(fend as int);
            ustart = fend;
            let (is_secs, f) = {
                let mut uend2 = fend;
                let mut uv2: Vec<char> = Vec::new();
                while uend2 < v.len() && (('a' <= v[uend2] && v[uend2] <= 'z') || ('A'
                    <= v[uend2] && v[uend2] <= 'Z'))
                    invariant
                        fend <= uend2 <= v@.len(),
                        take_alpha(v@.skip(fend as int)).0 == uv2@ + take_alpha(
                            v@.skip(uend2 as int),
                        ).0,
                        take_alpha(v@.skip(fend as int)).1 == take_alpha(
                            v@.skip(uend2 as int),
                        ).1,
                    decreases v@.len() - uend2,
                {
                    proof {
                        assert(v@.skip(uend2 as int)[0] == v@[uend2 as int]);
                        assert(v@.skip(uend2 as int).skip(1) =~= v@.skip(uend2 + 1));
                        assert(uv2@ + (seq![v@[uend2 as int]] + take_alpha(
                            v@.skip(uend2 + 1),
                        ).0) =~= (uv2@ + seq![v@[uend2 as int]]) + take_alpha(
                            v@.skip(uend2 + 1),
                        ).0);
                    }
                    uv2.push(v[uend2]);
                    uend2 = uend2 + 1;
                }
                proof {
                    assert(v@.skip(uend2 as int).len() == v@.len() - uend2);
                    if uend2 < v@.len() {
                        assert(v@.skip(uend2 as int)[0] == v@[uend2 as int]);
                    }
                    assert(take_alpha(v@.skip(uend2 as int)).0 =~= Seq::<char>::empty());
                    assert(uv2@ + Seq::<char>::empty() =~= uv2@);
                    assert(take_alpha(v@.skip(fend as int)).0 == uv2@);
                    assert(take_alpha(v@.skip(fend as int)).1 == v@.skip(uend2 as int));
                }
                if uv2.len() == 0 {
                    return None;
                }
                let m2 = match unit_mult(&uv2) {
                    Some(m2) => m2,
                    None => {
                        return None;
                    }
                };
                if m2.0 == 0 && m2.1 == 1 {
                    proof {
                        assert(frac_weight((m2.0 as nat, m2.1 as nat)) is None);
                    }
                    return None;
                }
                if m2.0 == 0 {
                    (false, m2.1)
                } else if m2.0 == 1 && m2.1 == 0 {
                    (false, 1_000_000_000u64)
                } else if m2.0 == 60 && m2.1 == 0 {
                    (false, 60_000_000_000u64)
                } else {
                    (true, m2.0)
                }
            };
            let prodf = match num.checked_mul(f) {
                Some(x) => x,
                None => {
                    return None;
                }
            };
            proof {
                lemma_pow10_pos(fdv@.len());
            }
            if prodf % den != 0 {
                return None;
            }
            let fc = prodf / den;
            if is_secs {
                add_s = fc;
            } else {
                add_n = fc;
            }
        }
        // the unit letters (read again at the shared anchor)
        let mut uend = ustart;
        let mut uv: Vec<char> = Vec::new();
        while uend < v.len() && (('a' <= v[uend] && v[uend] <= 'z') || ('A' <= v[uend] && v[uend]
            <= 'Z'))
            invariant
                ustart <= uend <= v@.len(),
                take_alpha(v@.skip(ustart as int)).0 == uv@ + take_alpha(v@.skip(uend as int)).0,
                take_alpha(v@.skip(ustart as int)).1 == take_alpha(v@.skip(uend as int)).1,
            decreases v@.len() - uend,
        {
            proof {
                assert(v@.skip(uend as int)[0] == v@[uend as int]);
                assert(v@.skip(uend as int).skip(1) =~= v@.skip(uend + 1));
                assert(uv@ + (seq![v@[uend as int]] + take_alpha(v@.skip(uend + 1)).0) =~= (uv@
                    + seq![v@[uend as int]]) + take_alpha(v@.skip(uend + 1)).0);
            }
            uv.push(v[uend]);
            uend = uend + 1;
        }
        proof {
            assert(v@.skip(uend as int).len() == v@.len() - uend);
            if uend < v@.len() {
                assert(v@.skip(uend as int)[0] == v@[uend as int]);
            }
            assert(take_alpha(v@.skip(uend as int)).0 =~= Seq::<char>::empty());
            assert(uv@ + Seq::<char>::empty() =~= uv@);
            assert(take_alpha(v@.skip(ustart as int)).0 == uv@);
            assert(take_alpha(v@.skip(ustart as int)).1 == v@.skip(uend as int));
        }
        if uv.len() == 0 {
            return None;
        }
        let m = match unit_mult(&uv) {
            Some(m) => m,
            None => {
                return None;
            }
        };
        if has_frac {
            proof {
                // The two unit reads share one anchor, so the weights
                // agree and the fraction's verdict stands for this unit.
                assert(take_alpha(v@.skip(ustart as int)).0 == uv@);
            }
        }
        let secs_part = match val.checked_mul(m.0) {
            Some(x) => x,
            None => {
                return None;
            }
        };
        let new_s0 = match acc_s.checked_add(secs_part) {
            Some(x) => x,
            None => {
                return None;
            }
        };
        let new_s = match new_s0.checked_add(add_s) {
            Some(x) => x,
            None => {
                return None;
            }
        };
        proof {
            assert((val as int) * (m.1 as int) <= 0xFFFFFFFFFFFFFFFFu64 * 1000000int)
                by (nonlinear_arith)
                requires
                    val <= 0xFFFFFFFFFFFFFFFFu64,
                    m.1 <= 1000000,
            ;
        }
        let nanos_part: u128 = (val as u128) * (m.1 as u128);
        let new_n0 = match acc_n.checked_add(nanos_part) {
            Some(x) => x,
            None => {
                return None;
            }
        };
        let new_n = match new_n0.checked_add(add_n as u128) {
            Some(x) => x,
            None => {
                return None;
            }
        };
        proof {
            assert(uend > cur);
            assert(v@.skip(uend as int).len() < v@.skip(cur as int).len());
            assert(dec_val(dv@) <= u64::MAX);
        }
        acc_s = new_s;
        acc_n = new_n;
        seen = true;
        cur = uend;
    }
    // end of input with at least one item
    let carry = acc_n / 1_000_000_000;
    let nanos = (acc_n % 1_000_000_000) as u32;
    if carry > u64::MAX as u128 {
        return None;
    }
    match acc_s.checked_add(carry as u64) {
        Some(total) => Some(Dur { secs: total, nanos }),
        None => None,
    }
}

proof fn lemma_pow10_pos(n: nat)
    ensures
        pow10(n) >= 1,
    decreases n,
{
    if n > 0 {
        lemma_pow10_pos((n - 1) as nat);
    }
}

proof fn lemma_pow10_mono(a: nat, b: nat)
    requires
        a <= b,
    ensures
        pow10(a) <= pow10(b),
    decreases b,
{
    if a < b {
        lemma_pow10_mono(a, (b - 1) as nat);
        lemma_pow10_pos((b - 1) as nat);
    }
}



// ------------------------------------------------------------------
// Round trip: reading a printed duration returns the same span.
// ------------------------------------------------------------------
pub open spec fn ws_pad(p: nat) -> Seq<char> {
    Seq::new(p, |i: int| ' ')
}

proof fn lemma_skip_ws_pad(p: nat, s: Seq<char>)
    ensures
        skip_ws(ws_pad(p) + s) == skip_ws(s),
    decreases p,
{
    if p == 0 {
        assert(ws_pad(0) + s =~= s);
    } else {
        let w = ws_pad(p) + s;
        assert(w.len() > 0);
        assert(w[0] == ' ');
        assert(w.skip(1) =~= ws_pad((p - 1) as nat) + s);
        lemma_skip_ws_pad((p - 1) as nat, s);
    }
}

proof fn lemma_take_digits_exact(d: Seq<char>, rest: Seq<char>)
    requires
        all_digits(d),
        rest.len() == 0 || !is_digit(rest[0]),
    ensures
        take_digits(d + rest) == (d, rest),
    decreases d.len(),
{
    if d.len() == 0 {
        assert(d + rest =~= rest);
        assert(take_digits(rest) == (Seq::<char>::empty(), rest));
        assert(Seq::<char>::empty() =~= d);
    } else {
        let s = d + rest;
        assert(s[0] == d[0]);
        assert(is_digit(s[0]));
        assert(s.skip(1) =~= d.skip(1) + rest);
        assert(all_digits(d.skip(1)));
        lemma_take_digits_exact(d.skip(1), rest);
        assert(seq![s[0]] + d.skip(1) =~= d);
    }
}

proof fn lemma_take_alpha_exact(u: Seq<char>, rest: Seq<char>)
    requires
        forall|j: int| 0 <= j < u.len() ==> is_alpha(#[trigger] u[j]),
        rest.len() == 0 || !is_alpha(rest[0]),
    ensures
        take_alpha(u + rest) == (u, rest),
    decreases u.len(),
{
    if u.len() == 0 {
        assert(u + rest =~= rest);
        assert(take_alpha(rest) == (Seq::<char>::empty(), rest));
        assert(Seq::<char>::empty() =~= u);
    } else {
        let s = u + rest;
        assert(s[0] == u[0]);
        assert(is_alpha(s[0]));
        assert(s.skip(1) =~= u.skip(1) + rest);
        lemma_take_alpha_exact(u.skip(1), rest);
        assert(seq![s[0]] + u.skip(1) =~= u);
    }
}

/// An item the reader accepts back: a bounded value and a known,
/// purely alphabetic unit name.
pub open spec fn item_ok(it: (nat, Seq<char>)) -> bool {
    &&& it.0 <= u64::MAX
    &&& unit_of(it.1) is Some
    &&& it.1.len() >= 1
    &&& forall|j: int| 0 <= j < it.1.len() ==> is_alpha(#[trigger] it.1[j])
}

pub open spec fn item_secs(it: (nat, Seq<char>)) -> nat {
    match unit_of(it.1) {
        Some(m) => it.0 * m.0,
        None => 0,
    }
}

pub open spec fn item_nanos(it: (nat, Seq<char>)) -> nat {
    match unit_of(it.1) {
        Some(m) => it.0 * m.1,
        None => 0,
    }
}

pub open spec fn sum_secs(items: Seq<(nat, Seq<char>)>) -> nat
    decreases items.len(),
{
    if items.len() == 0 {
        0
    } else {
        item_secs(items[0]) + sum_secs(items.skip(1))
    }
}

pub open spec fn sum_nanos(items: Seq<(nat, Seq<char>)>) -> nat
    decreases items.len(),
{
    if items.len() == 0 {
        0
    } else {
        item_nanos(items[0]) + sum_nanos(items.skip(1))
    }
}

proof fn lemma_sum_push(items: Seq<(nat, Seq<char>)>, x: (nat, Seq<char>))
    ensures
        sum_secs(items.push(x)) == sum_secs(items) + item_secs(x),
        sum_nanos(items.push(x)) == sum_nanos(items) + item_nanos(x),
        (forall|i: int| 0 <= i < items.len() ==> item_ok(#[trigger] items[i])) && item_ok(x)
            ==> (forall|i: int|
            0 <= i < items.push(x).len() ==> item_ok(#[trigger] items.push(x)[i])),
        items.push(x).len() == items.len() + 1,
    decreases items.len(),
{
    assert forall|i: int| 0 <= i < items.push(x).len() implies items.push(x)[i] == (if i
        < items.len() {
        items[i]
    } else {
        x
    }) by {}
    let w = items.push(x);
    if items.len() == 0 {
        assert(w[0] == x);
        assert(w.skip(1) =~= Seq::<(nat, Seq<char>)>::empty());
        assert(sum_secs(w.skip(1)) == 0);
        assert(sum_nanos(w.skip(1)) == 0);
        assert(sum_secs(w) == item_secs(x));
        assert(sum_nanos(w) == item_nanos(x));
    } else {
        assert(w[0] == items[0]);
        assert(w.skip(1) =~= items.skip(1).push(x));
        lemma_sum_push(items.skip(1), x);
        assert(sum_secs(w) == item_secs(items[0]) + sum_secs(items.skip(1).push(x)));
        assert(sum_secs(items) == item_secs(items[0]) + sum_secs(items.skip(1)));
        assert(sum_nanos(w) == item_nanos(items[0]) + sum_nanos(items.skip(1).push(x)));
        assert(sum_nanos(items) == item_nanos(items[0]) + sum_nanos(items.skip(1)));
    }
}

/// Reading the rendered items accumulates exactly their weights.
#[verifier::rlimit(100)]
#[verifier::spinoff_prover]
proof fn lemma_parse_render(
    items: Seq<(nat, Seq<char>)>,
    pad: nat,
    acc_s: nat,
    acc_n: nat,
    seen: bool,
)
    requires
        forall|i: int| 0 <= i < items.len() ==> item_ok(#[trigger] items[i]),
        seen || items.len() >= 1,
        acc_s + sum_secs(items) <= u64::MAX,
        acc_n + sum_nanos(items) <= u128::MAX,
    ensures
        spec_parse_dur_items(ws_pad(pad) + render(items), acc_s, acc_n, seen) == Some(
            ((acc_s + sum_secs(items)) as nat, (acc_n + sum_nanos(items)) as nat),
        ),
    decreases items.len(),
{
    let s = ws_pad(pad) + render(items);
    lemma_skip_ws_pad(pad, render(items));
    if items.len() == 0 {
        assert(render(items).len() == 0);
        assert(skip_ws(render(items)) == render(items));
        assert(skip_ws(s).len() == 0);
    } else {
        let it = items[0];
        assert(item_ok(it));
        let v = it.0;
        let u = it.1;
        let m = unit_of(u).unwrap();
        crate::text::lemma_dec_digits_shape(v);
        crate::text::lemma_dec_round_trip(v);
        let digits = dec_digits(v);
        let tail: Seq<char> = if items.len() == 1 {
            Seq::empty()
        } else {
            seq![' '] + render(items.skip(1))
        };
        assert(render(items) =~= digits + u + tail);
        // The text starts with a digit, so no whitespace is skipped.
        let t = skip_ws(s);
        assert((digits + u + tail)[0] == digits[0]);
        assert(is_digit(digits[0]));
        assert(!is_ws(digits[0]));
        assert(skip_ws(digits + u + tail) == digits + u + tail);
        assert(t == render(items));
        assert(t.len() <= s.len());
        // The digit run is exactly the printed numeral.
        assert(u.len() == 0 || !is_digit(u[0])) by {
            assert(is_alpha(u[0]));
        }
        assert(digits + u + tail =~= digits + (u + tail));
        assert((u + tail)[0] == u[0]);
        assert(!is_digit((u + tail)[0]));
        lemma_take_digits_exact(digits, u + tail);
        assert(take_digits(t) == (digits, u + tail));
        assert(dec_val(digits) == v);
        assert(v <= u64::MAX);
        // The unit run is exactly the printed name.
        assert(tail.len() == 0 || !is_alpha(tail[0])) by {
            if tail.len() > 0 {
                assert(tail[0] == ' ');
            }
        }
        lemma_take_alpha_exact(u, tail);
        assert(take_alpha(u + tail) == (u, tail));
        // The accumulation stays inside its bounds.
        assert(sum_secs(items) == item_secs(it) + sum_secs(items.skip(1)));
        assert(sum_nanos(items) == item_nanos(it) + sum_nanos(items.skip(1)));
        assert(item_secs(it) == v * m.0);
        assert(item_nanos(it) == v * m.1);
        assert(v * m.0 <= u64::MAX);
        assert(acc_s + v * m.0 <= u64::MAX);
        assert(acc_n + v * m.1 <= u128::MAX);
        // The reader moves past this item and keeps going.
        assert(tail.len() < s.len());
        if items.len() == 1 {
            assert(tail =~= ws_pad(0) + render(items.skip(1))) by {
                assert(render(items.skip(1)).len() == 0);
                assert(ws_pad(0).len() == 0);
            }
            lemma_parse_render(
                items.skip(1),
                0,
                (acc_s + v * m.0) as nat,
                (acc_n + v * m.1) as nat,
                true,
            );
        } else {
            assert(tail =~= ws_pad(1) + render(items.skip(1))) by {
                assert(ws_pad(1) =~= seq![' ']);
            }
            lemma_parse_render(
                items.skip(1),
                1,
                (acc_s + v * m.0) as nat,
                (acc_n + v * m.1) as nat,
                true,
            );
        }
        assert(spec_parse_dur_items(tail, (acc_s + v * m.0) as nat, (acc_n + v * m.1) as nat, true)
            == Some(((acc_s + sum_secs(items)) as nat, (acc_n + sum_nanos(items)) as nat)));
    }
}


/// Every unit name the printer emits reads back as its own weight.
proof fn lemma_unit_names()
    ensures
        unit_of("year"@) == Some((31557600 as nat, 0 as nat)),
        unit_of("years"@) == Some((31557600 as nat, 0 as nat)),
        unit_of("month"@) == Some((2630016 as nat, 0 as nat)),
        unit_of("months"@) == Some((2630016 as nat, 0 as nat)),
        unit_of("day"@) == Some((86400 as nat, 0 as nat)),
        unit_of("days"@) == Some((86400 as nat, 0 as nat)),
        unit_of("h"@) == Some((3600 as nat, 0 as nat)),
        unit_of("m"@) == Some((60 as nat, 0 as nat)),
        unit_of("s"@) == Some((1 as nat, 0 as nat)),
        unit_of("ms"@) == Some((0 as nat, 1000000 as nat)),
        unit_of("us"@) == Some((0 as nat, 1000 as nat)),
        unit_of("ns"@) == Some((0 as nat, 1 as nat)),
{
    reveal_strlit("nanos");
    reveal_strlit("nsec");
    reveal_strlit("ns");
    reveal_strlit("usec");
    reveal_strlit("us");
    reveal_strlit("millis");
    reveal_strlit("msec");
    reveal_strlit("ms");
    reveal_strlit("seconds");
    reveal_strlit("second");
    reveal_strlit("secs");
    reveal_strlit("sec");
    reveal_strlit("s");
    reveal_strlit("minutes");
    reveal_strlit("minute");
    reveal_strlit("mins");
    reveal_strlit("min");
    reveal_strlit("m");
    reveal_strlit("hours");
    reveal_strlit("hour");
    reveal_strlit("hrs");
    reveal_strlit("hr");
    reveal_strlit("h");
    reveal_strlit("days");
    reveal_strlit("day");
    reveal_strlit("d");
    reveal_strlit("weeks");
    reveal_strlit("week");
    reveal_strlit("wks");
    reveal_strlit("wk");
    reveal_strlit("w");
    reveal_strlit("months");
    reveal_strlit("month");
    reveal_strlit("M");
    reveal_strlit("years");
    reveal_strlit("year");
    reveal_strlit("yrs");
    reveal_strlit("yr");
    reveal_strlit("y");
    assert("nanos"@.len() == 5);
    assert("nsec"@.len() == 4);
    assert("ns"@.len() == 2);
    assert("usec"@.len() == 4);
    assert("us"@.len() == 2);
    assert("millis"@.len() == 6);
    assert("msec"@.len() == 4);
    assert("ms"@.len() == 2);
    assert("seconds"@.len() == 7);
    assert("second"@.len() == 6);
    assert("secs"@.len() == 4);
    assert("sec"@.len() == 3);
    assert("s"@.len() == 1);
    assert("minutes"@.len() == 7);
    assert("minute"@.len() == 6);
    assert("mins"@.len() == 4);
    assert("min"@.len() == 3);
    assert("m"@.len() == 1);
    assert("hours"@.len() == 5);
    assert("hour"@.len() == 4);
    assert("hrs"@.len() == 3);
    assert("hr"@.len() == 2);
    assert("h"@.len() == 1);
    assert("days"@.len() == 4);
    assert("day"@.len() == 3);
    assert("d"@.len() == 1);
    assert("weeks"@.len() == 5);
    assert("week"@.len() == 4);
    assert("wks"@.len() == 3);
    assert("wk"@.len() == 2);
    assert("w"@.len() == 1);
    assert("months"@.len() == 6);
    assert("month"@.len() == 5);
    assert("M"@.len() == 1);
    assert("years"@.len() == 5);
    assert("year"@.len() == 4);
    assert("yrs"@.len() == 3);
    assert("yr"@.len() == 2);
    assert("y"@.len() == 1);
    assert("nsec"@[0] == 'n');
    assert("year"@[0] == 'y');
    assert("nsec"@ != "year"@);
    assert("usec"@[0] == 'u');
    assert("usec"@ != "year"@);
    assert("msec"@[0] == 'm');
    assert("msec"@ != "year"@);
    assert("secs"@[0] == 's');
    assert("secs"@ != "year"@);
    assert("mins"@[0] == 'm');
    assert("mins"@ != "year"@);
    assert("hour"@[0] == 'h');
    assert("hour"@ != "year"@);
    assert("days"@[0] == 'd');
    assert("days"@ != "year"@);
    assert("week"@[0] == 'w');
    assert("week"@ != "year"@);
    assert("nanos"@[0] == 'n');
    assert("years"@[0] == 'y');
    assert("nanos"@ != "years"@);
    assert("hours"@[0] == 'h');
    assert("hours"@ != "years"@);
    assert("weeks"@[0] == 'w');
    assert("weeks"@ != "years"@);
    assert("month"@[0] == 'm');
    assert("month"@ != "years"@);
    assert("nanos"@ != "month"@);
    assert("hours"@ != "month"@);
    assert("weeks"@ != "month"@);
    assert("millis"@[1] == 'i');
    assert("months"@[1] == 'o');
    assert("millis"@ != "months"@);
    assert("second"@[0] == 's');
    assert("months"@[0] == 'm');
    assert("second"@ != "months"@);
    assert("minute"@[1] == 'i');
    assert("minute"@ != "months"@);
    assert("sec"@[0] == 's');
    assert("day"@[0] == 'd');
    assert("sec"@ != "day"@);
    assert("min"@[0] == 'm');
    assert("min"@ != "day"@);
    assert("hrs"@[0] == 'h');
    assert("hrs"@ != "day"@);
    assert("nsec"@ != "days"@);
    assert("usec"@ != "days"@);
    assert("msec"@ != "days"@);
    assert("secs"@ != "days"@);
    assert("mins"@ != "days"@);
    assert("hour"@ != "days"@);
    assert("s"@[0] == 's');
    assert("h"@[0] == 'h');
    assert("s"@ != "h"@);
    assert("m"@[0] == 'm');
    assert("m"@ != "h"@);
    assert("s"@ != "m"@);
    assert("ns"@[0] == 'n');
    assert("ms"@[0] == 'm');
    assert("ns"@ != "ms"@);
    assert("us"@[0] == 'u');
    assert("us"@ != "ms"@);
    assert("ns"@ != "us"@);
}




/// Printing any duration and reading the text back returns the same
/// seconds and nanoseconds.
#[verifier::rlimit(100)]
#[verifier::spinoff_prover]
pub proof fn lemma_dur_round_trip(d: Dur)
    requires
        d.wf(),
    ensures
        spec_parse_dur(spec_fmt_dur(d)) == Some(d),
{
    lemma_unit_names();
    if d.secs == 0 && d.nanos == 0 {
        reveal_strlit("s");
        let items = seq![(0 as nat, "s"@)];
        crate::text::lemma_digit_char(0);
        assert(dec_digits(0) =~= seq![crate::text::digit_char(0)]);
        assert(crate::text::digit_char(0) == '0');
        assert(render(items) == item_text(0, "s"@));
        assert(item_text(0, "s"@) =~= seq!['0', 's']);
        assert(forall|i: int| 0 <= i < items.len() ==> item_ok(#[trigger] items[i])) by {
            assert(items[0] == (0 as nat, "s"@));
            assert(is_alpha('s'));
            assert(forall|j: int| 0 <= j < "s"@.len() ==> is_alpha(#[trigger] "s"@[j]));
        }
        assert(sum_secs(items) == 0) by {
            assert(items.skip(1) =~= Seq::<(nat, Seq<char>)>::empty());
            assert(item_secs(items[0]) == 0);
        }
        assert(sum_nanos(items) == 0) by {
            assert(items.skip(1) =~= Seq::<(nat, Seq<char>)>::empty());
            assert(item_nanos(items[0]) == 0);
        }
        lemma_parse_render(items, 0, 0, 0, false);
        assert(ws_pad(0) + render(items) =~= render(items));
        assert(spec_fmt_dur(d) =~= render(items));
        assert(spec_parse_dur_items(spec_fmt_dur(d), 0, 0, false) == Some((0 as nat, 0 as nat)));
        reveal_strlit("0");
        assert("0"@.len() == 1);
        assert(spec_fmt_dur(d) != "0"@);
        assert(spec_parse_dur(spec_fmt_dur(d)) == Some(Dur { secs: 0u64, nanos: 0u32 }));
        assert(d == (Dur { secs: 0u64, nanos: 0u32 }));
    } else {
        let secs = d.secs as nat;
        let nanos = d.nanos as nat;
        let years = secs / 31557600;
        let ydays = secs % 31557600;
        let months = ydays / 2630016;
        let mdays = ydays % 2630016;
        let days = mdays / 86400;
        let day_secs = mdays % 86400;
        let hours = day_secs / 3600;
        let minutes = day_secs % 3600 / 60;
        let seconds = day_secs % 60;
        let millis = nanos / 1000000;
        let micros = nanos / 1000 % 1000;
        let nanosec = nanos % 1000;
        // The nine parts weigh back to the reading they came from.
        assert(secs as int == 31557600 * (years as int) + ydays as int) by {
            vstd::arithmetic::div_mod::lemma_fundamental_div_mod(secs as int, 31557600);
        }
        assert(ydays as int == 2630016 * (months as int) + mdays as int) by {
            vstd::arithmetic::div_mod::lemma_fundamental_div_mod(ydays as int, 2630016);
        }
        assert(mdays as int == 86400 * (days as int) + day_secs as int) by {
            vstd::arithmetic::div_mod::lemma_fundamental_div_mod(mdays as int, 86400);
        }
        let r3600 = day_secs % 3600;
        assert(day_secs as int == 3600 * (hours as int) + r3600 as int) by {
            vstd::arithmetic::div_mod::lemma_fundamental_div_mod(day_secs as int, 3600);
        }
        assert(r3600 as int == 60 * (minutes as int) + (r3600 % 60) as int) by {
            vstd::arithmetic::div_mod::lemma_fundamental_div_mod(r3600 as int, 60);
        }
        assert((r3600 % 60) as int == seconds as int) by {
            vstd::arithmetic::div_mod::lemma_mod_mod(day_secs as int, 60, 60);
            assert(60 * 60 == 3600);
        }
        let total_secs = years * 31557600 + months * 2630016 + days * 86400 + hours * 3600
            + minutes * 60 + seconds;
        assert(total_secs == secs);
        let q1000 = nanos / 1000;
        assert(nanos as int == 1000 * (q1000 as int) + nanosec as int) by {
            vstd::arithmetic::div_mod::lemma_fundamental_div_mod(nanos as int, 1000);
        }
        assert(q1000 as int == 1000 * ((q1000 / 1000) as int) + (micros as int)) by {
            vstd::arithmetic::div_mod::lemma_fundamental_div_mod(q1000 as int, 1000);
        }
        assert(q1000 / 1000 == millis) by {
            vstd::arithmetic::div_mod::lemma_div_denominator(nanos as int, 1000, 1000);
            assert(1000 * 1000 == 1000000);
        }
        let total_nanos = millis * 1000000 + micros * 1000 + nanosec;
        assert(total_nanos == nanos);
        // Walk the printed parts, tracking their weights.
        let l0 = Seq::<(nat, Seq<char>)>::empty();
        assert(sum_secs(l0) == 0 && sum_nanos(l0) == 0);
        let yu = plural_unit(seq!['y', 'e', 'a', 'r'], years);
        reveal_strlit("year");
        reveal_strlit("years");
        reveal_strlit("month");
        reveal_strlit("months");
        reveal_strlit("day");
        reveal_strlit("days");
        reveal_strlit("h");
        reveal_strlit("m");
        reveal_strlit("s");
        reveal_strlit("ms");
        reveal_strlit("us");
        reveal_strlit("ns");
        assert(seq!['y', 'e', 'a', 'r'] =~= "year"@);
        assert(seq!['y', 'e', 'a', 'r'] + seq!['s'] =~= "years"@);
        assert(unit_of(yu) == Some((31557600 as nat, 0 as nat)));
        assert(forall|j: int| 0 <= j < yu.len() ==> is_alpha(#[trigger] yu[j])) by {
            assert(forall|j: int| 0 <= j < "year"@.len() ==> is_alpha(#[trigger] "year"@[j]));
            assert(forall|j: int| 0 <= j < "years"@.len() ==> is_alpha(#[trigger] "years"@[j]));
        }
        let mu = plural_unit(seq!['m', 'o', 'n', 't', 'h'], months);
        assert(seq!['m', 'o', 'n', 't', 'h'] =~= "month"@);
        assert(seq!['m', 'o', 'n', 't', 'h'] + seq!['s'] =~= "months"@);
        assert(unit_of(mu) == Some((2630016 as nat, 0 as nat)));
        assert(forall|j: int| 0 <= j < mu.len() ==> is_alpha(#[trigger] mu[j])) by {
            assert(forall|j: int| 0 <= j < "month"@.len() ==> is_alpha(#[trigger] "month"@[j]));
            assert(forall|j: int|
                0 <= j < "months"@.len() ==> is_alpha(#[trigger] "months"@[j]));
        }
        let du = plural_unit(seq!['d', 'a', 'y'], days);
        assert(seq!['d', 'a', 'y'] =~= "day"@);
        assert(seq!['d', 'a', 'y'] + seq!['s'] =~= "days"@);
        assert(unit_of(du) == Some((86400 as nat, 0 as nat)));
        assert(forall|j: int| 0 <= j < du.len() ==> is_alpha(#[trigger] du[j])) by {
            assert(forall|j: int| 0 <= j < "day"@.len() ==> is_alpha(#[trigger] "day"@[j]));
            assert(forall|j: int| 0 <= j < "days"@.len() ==> is_alpha(#[trigger] "days"@[j]));
        }
        assert(seq!['h'] =~= "h"@);
        assert(seq!['m'] =~= "m"@);
        assert(seq!['s'] =~= "s"@);
        assert(seq!['m', 's'] =~= "ms"@);
        assert(seq!['u', 's'] =~= "us"@);
        assert(seq!['n', 's'] =~= "ns"@);
        // The divisions stay inside the machine range.
        assert(years <= secs && ydays <= secs && months <= ydays && mdays <= ydays && days
            <= mdays && day_secs <= mdays && hours <= day_secs && minutes <= day_secs && seconds
            <= day_secs && millis <= nanos && micros <= 999 && nanosec <= 999);
        let items = dur_items(secs, nanos);
        lemma_dur_items_props(secs, nanos, yu, mu, du);
        let l9 = items;
        lemma_parse_render(l9, 0, 0, 0, false);
        assert(ws_pad(0) + render(l9) =~= render(l9));
        assert(spec_fmt_dur(d) == render(items));
        assert(spec_parse_dur_items(spec_fmt_dur(d), 0, 0, false) == Some((secs, nanos)));
        // The printed text holds a numeral and a unit, so it is longer
        // than the bare zero.
        reveal_strlit("0");
        assert("0"@.len() == 1);
        assert(render(items).len() >= 2) by {
            let it0 = items[0];
            assert(item_ok(it0));
            crate::text::lemma_dec_digits_shape(it0.0);
            assert(item_text(it0.0, it0.1).len() >= 2);
            if items.len() == 1 {
                assert(render(items) == item_text(it0.0, it0.1));
            } else {
                assert(render(items) == item_text(it0.0, it0.1) + seq![' '] + render(
                    items.skip(1),
                ));
            }
        }
        assert(spec_fmt_dur(d) != "0"@);
        assert(nanos / 1000000000 == 0) by {
            assert(nanos < 1000000000);
        }
        vstd::arithmetic::div_mod::lemma_small_mod(nanos, 1000000000);
        assert(spec_parse_dur(spec_fmt_dur(d)) == Some(Dur { secs: d.secs, nanos: d.nanos }));
        assert(d == (Dur { secs: d.secs, nanos: d.nanos }));
    }
}


/// The printed parts of a nonzero duration are well formed, nonempty,
/// and weigh back to its components.
#[verifier::rlimit(100)]
#[verifier::spinoff_prover]
proof fn lemma_dur_items_props(secs: nat, nanos: nat, yu: Seq<char>, mu: Seq<char>, du: Seq<char>)
    requires
        secs <= u64::MAX,
        nanos < 1000000000,
        secs > 0 || nanos > 0,
        yu == plural_unit(seq!['y', 'e', 'a', 'r'], secs / 31557600),
        mu == plural_unit(seq!['m', 'o', 'n', 't', 'h'], secs % 31557600 / 2630016),
        du == plural_unit(seq!['d', 'a', 'y'], secs % 31557600 % 2630016 / 86400),
        unit_of(yu) == Some((31557600 as nat, 0 as nat)),
        unit_of(mu) == Some((2630016 as nat, 0 as nat)),
        unit_of(du) == Some((86400 as nat, 0 as nat)),
        forall|j: int| 0 <= j < yu.len() ==> is_alpha(#[trigger] yu[j]),
        forall|j: int| 0 <= j < mu.len() ==> is_alpha(#[trigger] mu[j]),
        forall|j: int| 0 <= j < du.len() ==> is_alpha(#[trigger] du[j]),
        unit_of("h"@) == Some((3600 as nat, 0 as nat)),
        unit_of("m"@) == Some((60 as nat, 0 as nat)),
        unit_of("s"@) == Some((1 as nat, 0 as nat)),
        unit_of("ms"@) == Some((0 as nat, 1000000 as nat)),
        unit_of("us"@) == Some((0 as nat, 1000 as nat)),
        unit_of("ns"@) == Some((0 as nat, 1 as nat)),
        "h"@ == seq!['h'],
        "m"@ == seq!['m'],
        "s"@ == seq!['s'],
        "ms"@ == seq!['m', 's'],
        "us"@ == seq!['u', 's'],
        "ns"@ == seq!['n', 's'],
    ensures
        forall|i: int|
            0 <= i < dur_items(secs, nanos).len() ==> item_ok(
                #[trigger] dur_items(secs, nanos)[i],
            ),
        dur_items(secs, nanos).len() >= 1,
        sum_secs(dur_items(secs, nanos)) == (secs / 31557600) * 31557600 + (secs % 31557600
            / 2630016) * 2630016 + (secs % 31557600 % 2630016 / 86400) * 86400 + (secs % 31557600
            % 2630016 % 86400 / 3600) * 3600 + (secs % 31557600 % 2630016 % 86400 % 3600 / 60)
            * 60 + secs % 31557600 % 2630016 % 86400 % 60,
        sum_nanos(dur_items(secs, nanos)) == (nanos / 1000000) * 1000000 + (nanos / 1000 % 1000)
            * 1000 + nanos % 1000,
{
    let years = secs / 31557600;
    let ydays = secs % 31557600;
    let months = ydays / 2630016;
    let mdays = ydays % 2630016;
    let days = mdays / 86400;
    let day_secs = mdays % 86400;
    let hours = day_secs / 3600;
    let minutes = day_secs % 3600 / 60;
    let seconds = day_secs % 60;
    let millis = nanos / 1000000;
    let micros = nanos / 1000 % 1000;
    let nanosec = nanos % 1000;
    assert(years <= secs) by (nonlinear_arith)
        requires
            secs >= 0,
            years == secs / 31557600,
    ;
    assert(months <= u64::MAX && days <= u64::MAX && hours <= u64::MAX && minutes <= u64::MAX
        && seconds <= u64::MAX && millis <= u64::MAX && micros <= u64::MAX && nanosec
        <= u64::MAX);
    let l0 = Seq::<(nat, Seq<char>)>::empty();
    assert(sum_secs(l0) == 0 && sum_nanos(l0) == 0);
    assert(forall|i: int| 0 <= i < l0.len() ==> item_ok(#[trigger] l0[i]));
    let l1 = if years > 0 { l0.push((years, yu)) } else { l0 };
    if years > 0 {
        vstd::arithmetic::mul::lemma_mul_basics(years as int);
        assert(item_ok((years, yu)));
        assert(item_secs((years, yu)) == years * 31557600);
        assert(item_nanos((years, yu)) == 0);
        lemma_sum_push(l0, (years, yu));
    }
    assert(sum_secs(l1) == years * 31557600 && sum_nanos(l1) == 0);
    assert(forall|i: int| 0 <= i < l1.len() ==> item_ok(#[trigger] l1[i]));
    let l2 = if months > 0 { l1.push((months, mu)) } else { l1 };
    if months > 0 {
        vstd::arithmetic::mul::lemma_mul_basics(months as int);
        assert(item_ok((months, mu)));
        assert(item_secs((months, mu)) == months * 2630016);
        assert(item_nanos((months, mu)) == 0);
        lemma_sum_push(l1, (months, mu));
    }
    assert(sum_secs(l2) == years * 31557600 + months * 2630016 && sum_nanos(l2) == 0);
    assert(forall|i: int| 0 <= i < l2.len() ==> item_ok(#[trigger] l2[i]));
    let l3 = if days > 0 { l2.push((days, du)) } else { l2 };
    if days > 0 {
        vstd::arithmetic::mul::lemma_mul_basics(days as int);
        assert(item_ok((days, du)));
        assert(item_secs((days, du)) == days * 86400);
        assert(item_nanos((days, du)) == 0);
        lemma_sum_push(l2, (days, du));
    }
    assert(sum_secs(l3) == years * 31557600 + months * 2630016 + days * 86400 && sum_nanos(l3)
        == 0);
    assert(forall|i: int| 0 <= i < l3.len() ==> item_ok(#[trigger] l3[i]));
    let l4 = if hours > 0 { l3.push((hours, seq!['h'])) } else { l3 };
    if hours > 0 {
        vstd::arithmetic::mul::lemma_mul_basics(hours as int);
        assert(item_ok((hours, "h"@)));
        lemma_sum_push(l3, (hours, seq!['h']));
        assert(item_secs((hours, seq!['h'])) == hours * 3600);
        assert(item_nanos((hours, seq!['h'])) == 0);
    }
    assert(sum_secs(l4) == years * 31557600 + months * 2630016 + days * 86400 + hours * 3600
        && sum_nanos(l4) == 0);
    assert(forall|i: int| 0 <= i < l4.len() ==> item_ok(#[trigger] l4[i]));
    let l5 = if minutes > 0 { l4.push((minutes, seq!['m'])) } else { l4 };
    if minutes > 0 {
        vstd::arithmetic::mul::lemma_mul_basics(minutes as int);
        assert(item_ok((minutes, "m"@)));
        lemma_sum_push(l4, (minutes, seq!['m']));
        assert(item_secs((minutes, seq!['m'])) == minutes * 60);
        assert(item_nanos((minutes, seq!['m'])) == 0);
    }
    assert(sum_secs(l5) == years * 31557600 + months * 2630016 + days * 86400 + hours * 3600
        + minutes * 60 && sum_nanos(l5) == 0);
    assert(forall|i: int| 0 <= i < l5.len() ==> item_ok(#[trigger] l5[i]));
    let l6 = if seconds > 0 { l5.push((seconds, seq!['s'])) } else { l5 };
    if seconds > 0 {
        vstd::arithmetic::mul::lemma_mul_basics(seconds as int);
        assert(item_ok((seconds, "s"@)));
        lemma_sum_push(l5, (seconds, seq!['s']));
        assert(item_secs((seconds, seq!['s'])) == seconds * 1);
        assert(item_nanos((seconds, seq!['s'])) == 0);
    }
    assert(sum_secs(l6) == years * 31557600 + months * 2630016 + days * 86400 + hours * 3600
        + minutes * 60 + seconds && sum_nanos(l6) == 0);
    assert(forall|i: int| 0 <= i < l6.len() ==> item_ok(#[trigger] l6[i]));
    let l7 = if millis > 0 { l6.push((millis, seq!['m', 's'])) } else { l6 };
    if millis > 0 {
        vstd::arithmetic::mul::lemma_mul_basics(millis as int);
        assert(item_ok((millis, "ms"@)));
        lemma_sum_push(l6, (millis, seq!['m', 's']));
        assert(item_nanos((millis, seq!['m', 's'])) == millis * 1000000);
        assert(item_secs((millis, seq!['m', 's'])) == 0);
    }
    assert(sum_secs(l7) == sum_secs(l6) && sum_nanos(l7) == millis * 1000000);
    assert(forall|i: int| 0 <= i < l7.len() ==> item_ok(#[trigger] l7[i]));
    let l8 = if micros > 0 { l7.push((micros, seq!['u', 's'])) } else { l7 };
    if micros > 0 {
        vstd::arithmetic::mul::lemma_mul_basics(micros as int);
        assert(item_ok((micros, "us"@)));
        lemma_sum_push(l7, (micros, seq!['u', 's']));
        assert(item_nanos((micros, seq!['u', 's'])) == micros * 1000);
        assert(item_secs((micros, seq!['u', 's'])) == 0);
    }
    assert(sum_secs(l8) == sum_secs(l6) && sum_nanos(l8) == millis * 1000000 + micros * 1000);
    assert(forall|i: int| 0 <= i < l8.len() ==> item_ok(#[trigger] l8[i]));
    let l9 = if nanosec > 0 { l8.push((nanosec, seq!['n', 's'])) } else { l8 };
    if nanosec > 0 {
        vstd::arithmetic::mul::lemma_mul_basics(nanosec as int);
        assert(item_ok((nanosec, "ns"@)));
        lemma_sum_push(l8, (nanosec, seq!['n', 's']));
        assert(item_nanos((nanosec, seq!['n', 's'])) == nanosec * 1);
        assert(item_secs((nanosec, seq!['n', 's'])) == 0);
    }
    assert(sum_secs(l9) == sum_secs(l6) && sum_nanos(l9) == millis * 1000000 + micros * 1000
        + nanosec);
    assert(forall|i: int| 0 <= i < l9.len() ==> item_ok(#[trigger] l9[i]));
    assert(dur_items(secs, nanos) == l9);
    assert(l9.len() >= 1) by {
        if years == 0 && months == 0 && days == 0 && hours == 0 && minutes == 0 && seconds == 0
            && millis == 0 && micros == 0 && nanosec == 0 {
            assert(secs as int == 31557600 * (years as int) + ydays as int) by {
                vstd::arithmetic::div_mod::lemma_fundamental_div_mod(secs as int, 31557600);
            }
            assert(ydays as int == 2630016 * (months as int) + mdays as int) by {
                vstd::arithmetic::div_mod::lemma_fundamental_div_mod(ydays as int, 2630016);
            }
            assert(mdays as int == 86400 * (days as int) + day_secs as int) by {
                vstd::arithmetic::div_mod::lemma_fundamental_div_mod(mdays as int, 86400);
            }
            assert(day_secs as int == 3600 * (hours as int) + (day_secs % 3600) as int) by {
                vstd::arithmetic::div_mod::lemma_fundamental_div_mod(day_secs as int, 3600);
            }
            assert((day_secs % 3600) as int == 60 * (minutes as int) + (day_secs % 3600 % 60)
                as int) by {
                vstd::arithmetic::div_mod::lemma_fundamental_div_mod(
                    (day_secs % 3600) as int,
                    60,
                );
            }
            assert((day_secs % 3600 % 60) as int == seconds as int) by {
                vstd::arithmetic::div_mod::lemma_mod_mod(day_secs as int, 60, 60);
                assert(60 * 60 == 3600);
            }
            assert(secs == 0);
            assert(nanos as int == 1000 * ((nanos / 1000) as int) + nanosec as int) by {
                vstd::arithmetic::div_mod::lemma_fundamental_div_mod(nanos as int, 1000);
            }
            assert((nanos / 1000) as int == 1000 * ((nanos / 1000 / 1000) as int) + micros
                as int) by {
                vstd::arithmetic::div_mod::lemma_fundamental_div_mod((nanos / 1000) as int, 1000);
            }
            assert(nanos / 1000 / 1000 == millis) by {
                vstd::arithmetic::div_mod::lemma_div_denominator(nanos as int, 1000, 1000);
                assert(1000 * 1000 == 1000000);
            }
            assert(nanos == 0);
        }
    }
}

} // verus!
