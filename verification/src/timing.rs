//! Timing diagnostics: durations, line classification and the stream parser.
//!
//! The build tool reports one `Completed <name> <version> in <duration>` line
//! per compiled unit and one `Finished <profile> [<flags>] target(s) in
//! <duration>` summary line.  This module classifies single diagnostic lines,
//! parses `<seconds>.<fraction>s` durations, and folds a whole stream into one
//! timing record for a candidate.

use vstd::prelude::*;
use crate::config::{Features, Profile};
use crate::text::{
    all_digits, copy_range, dec_val, digit_run, find_from, first_match_from, is_digit, is_space,
    lemma_dec_val_bounds, lemma_dec_val_prefix_le, lemma_first_match_valid, lemma_pow10_add,
    lemma_run_len, match_at, pow10, run_len, slices_eq, space_run, starts_with_at, token_run,
};

verus! {

/// A nonnegative span of seconds, split into whole seconds and nanoseconds.
///
/// Durations are exact fixed-point values: the parser never rounds within the
/// first nine fractional digits and truncates beyond them.
#[derive(Clone, Copy, PartialEq, Eq, Structural, Debug)]
pub struct Duration {
    pub secs: u64,
    pub nanos: u32,
}

impl Duration {
    /// The nanosecond field stays below one second.
    pub open spec fn wf(self) -> bool {
        self.nanos < 1_000_000_000
    }

    /// The whole span in nanoseconds.
    pub open spec fn as_nanos(self) -> int {
        self.secs * 1_000_000_000 + self.nanos
    }

    /// The zero span.
    pub fn zero() -> (d: Duration)
        ensures
            d == (Duration { secs: 0, nanos: 0 }),
    {
        Duration { secs: 0, nanos: 0 }
    }
}

/// The concrete tenth powers the duration proofs lean on.
pub proof fn lemma_pow10_concrete()
    ensures
        pow10(0) == 1,
        pow10(1) == 10,
        pow10(8) == 100_000_000,
        pow10(9) == 1_000_000_000,
{
    assert(pow10(0) == 1);
    assert(pow10(1) == 10);
    assert(pow10(2) == 100);
    assert(pow10(3) == 1000);
    assert(pow10(4) == 10_000);
    assert(pow10(5) == 100_000);
    assert(pow10(6) == 1_000_000);
    assert(pow10(7) == 10_000_000);
    assert(pow10(8) == 100_000_000);
    assert(pow10(9) == 1_000_000_000);
}

/// A duration token is one or more digits, a dot, one or more digits, and a
/// final `s`: the shape `<seconds>.<fraction>s`.
pub open spec fn duration_shape(t: Seq<u8>) -> bool {
    let d = run_len(t, |b: u8| is_digit(b));
    &&& d >= 1
    &&& d < t.len()
    &&& t[d] == '.' as u8
    &&& {
        let f = run_len(t.skip(d + 1), |b: u8| is_digit(b));
        &&& f >= 1
        &&& d + 1 + f == t.len() - 1
        &&& t[t.len() - 1] == 's' as u8
    }
}

/// The digits before the dot of a well-shaped duration token.
pub open spec fn whole_part(t: Seq<u8>) -> Seq<u8> {
    t.take(run_len(t, |b: u8| is_digit(b)))
}

/// The digits between the dot and the final `s` of a well-shaped duration
/// token.
pub open spec fn frac_part(t: Seq<u8>) -> Seq<u8> {
    t.subrange(run_len(t, |b: u8| is_digit(b)) + 1, t.len() - 1)
}

/// The nanosecond value of a fractional-digit string: the first nine digits,
/// right-padded with zeroes; digits beyond the ninth are truncated away.
pub open spec fn frac_nanos(f: Seq<u8>) -> int {
    if f.len() >= 9 {
        dec_val(f.take(9))
    } else {
        dec_val(f) * pow10((9 - f.len()) as nat)
    }
}

/// The duration a token denotes: `None` when the token is not of the shape
/// `<seconds>.<fraction>s`, or when its whole seconds exceed the
/// representable range.
pub open spec fn spec_duration(t: Seq<u8>) -> Option<Duration> {
    if !duration_shape(t) {
        None
    } else if dec_val(whole_part(t)) > u64::MAX {
        None
    } else {
        Some(
            Duration {
                secs: dec_val(whole_part(t)) as u64,
                nanos: frac_nanos(frac_part(t)) as u32,
            },
        )
    }
}

/// A fractional-digit string always yields fewer than a second's worth of
/// nanoseconds.
pub proof fn lemma_frac_nanos_bound(f: Seq<u8>)
    requires
        all_digits(f),
        f.len() >= 1,
    ensures
        0 <= frac_nanos(f) < 1_000_000_000,
{
    lemma_pow10_concrete();
    if f.len() >= 9 {
        assert(all_digits(f.take(9)));
        lemma_dec_val_bounds(f.take(9));
    } else {
        lemma_dec_val_bounds(f);
        lemma_pow10_add(f.len() as nat, (9 - f.len()) as nat);
        crate::text::lemma_pow10_pos((9 - f.len()) as nat);
        assert(dec_val(f) * pow10((9 - f.len()) as nat) <= (pow10(f.len() as nat) - 1) * pow10(
            (9 - f.len()) as nat,
        )) by (nonlinear_arith)
            requires
                0 <= dec_val(f) <= pow10(f.len() as nat) - 1,
                pow10((9 - f.len()) as nat) >= 1,
        ;
        assert((pow10(f.len() as nat) - 1) * pow10((9 - f.len()) as nat) == pow10(f.len() as nat)
            * pow10((9 - f.len()) as nat) - pow10((9 - f.len()) as nat)) by (nonlinear_arith);
        assert(dec_val(f) * pow10((9 - f.len()) as nat) >= 0) by (nonlinear_arith)
            requires
                0 <= dec_val(f),
                pow10((9 - f.len()) as nat) >= 1,
        ;
    }
}

/// A parsed duration is well formed.
pub proof fn lemma_spec_duration_wf(t: Seq<u8>)
    ensures
        match spec_duration(t) {
            Some(d) => d.wf(),
            None => true,
        },
{
    if duration_shape(t) && dec_val(whole_part(t)) <= u64::MAX {
        let d = run_len(t, |b: u8| is_digit(b));
        lemma_run_len(t, |b: u8| is_digit(b));
        lemma_run_len(t.skip(d + 1), |b: u8| is_digit(b));
        let f = run_len(t.skip(d + 1), |b: u8| is_digit(b));
        assert forall|i: int| 0 <= i < frac_part(t).len() implies is_digit(
            #[trigger] frac_part(t)[i],
        ) by {
            assert(frac_part(t)[i] == t.skip(d + 1)[i]);
        }
        lemma_frac_nanos_bound(frac_part(t));
    }
}

/// Parses a duration token of the shape `<seconds>.<fraction>s`.
pub fn parse_duration(t: &[u8]) -> (r: Option<Duration>)
    ensures
        r == spec_duration(t@),
        match r {
            Some(d) => d.wf(),
            None => true,
        },
{
    proof {
        lemma_spec_duration_wf(t@);
        assert(t@.skip(0) =~= t@);
    }
    let d = digit_run(t, 0);
    let ghost digitp = |b: u8| is_digit(b);
    proof {
        lemma_run_len(t@, digitp);
    }
    if d < 1 || d >= t.len() {
        return None;
    }
    if t[d] != '.' as u8 {
        return None;
    }
    let f = digit_run(t, d + 1);
    if f < 1 || d + 1 + f != t.len() - 1 {
        return None;
    }
    if t[t.len() - 1] != 's' as u8 {
        return None;
    }
    proof {
        assert(duration_shape(t@));
    }
    // Whole seconds, with exact overflow detection.
    let ghost whole = whole_part(t@);
    proof {
        assert(all_digits(whole));
        assert(whole =~= t@.take(d as int));
    }
    let mut secs: u64 = 0;
    let mut i: usize = 0;
    while i < d
        invariant
            0 <= i <= d,
            d < t@.len(),
            whole == t@.take(d as int),
            all_digits(whole),
            d == run_len(t@, |b: u8| is_digit(b)),
            secs == dec_val(t@.take(i as int)),
        decreases d - i,
    {
        proof {
            assert(is_digit(whole[i as int]));
            assert(t@[i as int] == whole[i as int]);
        }
        let dig: u8 = t[i] - 48;
        let wide: u128 = secs as u128 * 10 + dig as u128;
        proof {
            assert(t@.take(i + 1).drop_last() =~= t@.take(i as int));
            assert(t@.take(i + 1).last() == t@[i as int]);
            assert(dec_val(t@.take(i + 1)) == dec_val(t@.take(i as int)) * 10 + (t@[i as int]
                - 48));
        }
        if wide > u64::MAX as u128 {
            proof {
                assert(whole.take(i + 1) =~= t@.take(i + 1));
                lemma_dec_val_prefix_le(whole, i + 1);
            }
            return None;
        }
        secs = wide as u64;
        i = i + 1;
    }
    proof {
        assert(secs == dec_val(whole));
    }
    // Nanoseconds from the first nine fractional digits.
    let ghost frac = frac_part(t@);
    proof {
        lemma_run_len(t@.skip(d + 1), digitp);
        assert(frac =~= t@.subrange(d + 1, t@.len() - 1));
        assert forall|k: int| 0 <= k < frac.len() implies is_digit(#[trigger] frac[k]) by {
            assert(frac[k] == t@.skip(d + 1)[k]);
        }
        assert(frac.len() == f);
        lemma_pow10_concrete();
    }
    let take_n: usize = if f > 9 {
        9
    } else {
        f
    };
    let mut nn: u64 = 0;
    let mut j: usize = 0;
    while j < take_n
        invariant
            0 <= j <= take_n,
            take_n <= 9,
            take_n <= f,
            d < t@.len(),
            t@.len() <= usize::MAX,
            d + 1 + f == t@.len() - 1,
            frac == t@.subrange(d + 1, t@.len() - 1),
            frac.len() == f,
            all_digits(frac),
            nn == dec_val(frac.take(j as int)),
            nn < pow10(j as nat),
        decreases take_n - j,
    {
        proof {
            lemma_pow10_concrete();
            assert(pow10(j as nat) <= pow10(8)) by {
                crate::text::lemma_pow10_pos(j as nat);
                lemma_pow10_add(j as nat, (8 - j) as nat);
                assert(pow10(8) == pow10(j as nat) * pow10((8 - j) as nat));
                crate::text::lemma_pow10_pos((8 - j) as nat);
                assert(pow10(j as nat) * pow10((8 - j) as nat) >= pow10(j as nat) * 1)
                    by (nonlinear_arith)
                    requires
                        pow10(j as nat) >= 1,
                        pow10((8 - j) as nat) >= 1,
                ;
            }
            assert(is_digit(frac[j as int]));
            assert(t@[d + 1 + j] == frac[j as int]);
        }
        let dig: u8 = t[d + 1 + j] - 48;
        proof {
            assert(frac.take(j + 1).drop_last() =~= frac.take(j as int));
            assert(frac.take(j + 1).last() == frac[j as int]);
            assert(all_digits(frac.take(j + 1)));
            lemma_dec_val_bounds(frac.take(j + 1));
        }
        nn = nn * 10 + dig as u64;
        j = j + 1;
    }
    // Right-pad short fractions with zeroes up to nine digits.
    let mut pad: usize = 0;
    let width: usize = if f > 9 {
        9
    } else {
        9 - f
    };
    let ghost base = nn;
    if f < 9 {
        proof {
            assert(frac.take(f as int) =~= frac);
        }
        while pad < width
            invariant
                f < 9,
                width == 9 - f,
                0 <= pad <= width,
                base == dec_val(frac),
                0 <= base,
                nn == base * pow10(pad as nat),
                nn < pow10((f + pad) as nat),
            decreases width - pad,
        {
            proof {
                lemma_pow10_concrete();
                lemma_pow10_add((f + pad) as nat, (8 - f - pad) as nat);
                crate::text::lemma_pow10_pos((8 - f - pad) as nat);
                assert(pow10((f + pad) as nat) <= pow10(8)) by (nonlinear_arith)
                    requires
                        pow10(8) == pow10((f + pad) as nat) * pow10((8 - f - pad) as nat),
                        pow10((f + pad) as nat) >= 1,
                        pow10((8 - f - pad) as nat) >= 1,
                ;
                assert(base * pow10(pad as nat) * 10 == base * pow10((pad + 1) as nat))
                    by (nonlinear_arith)
                    requires
                        pow10((pad + 1) as nat) == 10 * pow10(pad as nat),
                ;
            }
            nn = nn * 10;
            pad = pad + 1;
        }
    }
    proof {
        if f >= 9 {
            assert(nn == dec_val(frac.take(9)));
            assert(nn == frac_nanos(frac));
        } else {
            assert(nn == dec_val(frac) * pow10((9 - f) as nat));
            assert(nn == frac_nanos(frac));
        }
        lemma_frac_nanos_bound(frac);
        assert(whole == whole_part(t@));
        assert(frac == frac_part(t@));
    }
    Some(Duration { secs, nanos: nn as u32 })
}

/// The literal `Completed ` that opens a per-unit diagnostic line.
pub open spec fn lit_completed() -> Seq<u8> {
    seq![
        'C' as u8,
        'o' as u8,
        'm' as u8,
        'p' as u8,
        'l' as u8,
        'e' as u8,
        't' as u8,
        'e' as u8,
        'd' as u8,
        ' ' as u8,
    ]
}

/// The literal `Finished ` that opens the summary diagnostic line.
pub open spec fn lit_finished() -> Seq<u8> {
    seq![
        'F' as u8,
        'i' as u8,
        'n' as u8,
        'i' as u8,
        's' as u8,
        'h' as u8,
        'e' as u8,
        'd' as u8,
        ' ' as u8,
    ]
}

/// The literal ` [` before the summary line's flag list.
pub open spec fn lit_open_bracket() -> Seq<u8> {
    seq![' ' as u8, '[' as u8]
}

/// The literal ` in ` between a unit's version and its duration.
pub open spec fn lit_in_sep() -> Seq<u8> {
    seq![' ' as u8, 'i' as u8, 'n' as u8, ' ' as u8]
}

/// The literal `] target(s) in ` that closes the summary line's flag list.
pub open spec fn lit_target_close() -> Seq<u8> {
    seq![
        ']' as u8,
        ' ' as u8,
        't' as u8,
        'a' as u8,
        'r' as u8,
        'g' as u8,
        'e' as u8,
        't' as u8,
        '(' as u8,
        's' as u8,
        ')' as u8,
        ' ' as u8,
        'i' as u8,
        'n' as u8,
        ' ' as u8,
    ]
}

/// The name, version and duration tokens of a `Completed` line.
///
/// After its indentation the line must read `Completed `, a nonempty
/// name token, one space, a nonempty version token, ` in `, and a nonempty
/// duration token; anything after the duration token is ignored.
pub open spec fn completed_parts(line: Seq<u8>) -> Option<(Seq<u8>, Seq<u8>, Seq<u8>)> {
    let w = run_len(line, |b: u8| is_space(b));
    if !match_at(line, lit_completed(), w) {
        None
    } else {
        let p1 = w + 10;
        let n1 = run_len(line.skip(p1), |b: u8| !is_space(b));
        if n1 < 1 {
            None
        } else {
            let p2 = p1 + n1;
            if p2 + 1 > line.len() {
                None
            } else {
                let p3 = p2 + 1;
                let n2 = run_len(line.skip(p3), |b: u8| !is_space(b));
                if n2 < 1 {
                    None
                } else {
                    let p4 = p3 + n2;
                    if !match_at(line, lit_in_sep(), p4) {
                        None
                    } else {
                        let p5 = p4 + 4;
                        let n3 = run_len(line.skip(p5), |b: u8| !is_space(b));
                        if n3 < 1 {
                            None
                        } else {
                            Some(
                                (
                                    line.subrange(p1, p2),
                                    line.subrange(p3, p4),
                                    line.subrange(p5, p5 + n3),
                                ),
                            )
                        }
                    }
                }
            }
        }
    }
}

/// The duration token of a `Finished` summary line.
///
/// After its indentation the line must read `Finished `, a nonempty profile
/// token, ` [`, a nonempty flag segment closed by the first
/// `] target(s) in `, and a nonempty duration token.
pub open spec fn finished_duration(line: Seq<u8>) -> Option<Seq<u8>> {
    let w = run_len(line, |b: u8| is_space(b));
    if !match_at(line, lit_finished(), w) {
        None
    } else {
        let p1 = w + 9;
        let n1 = run_len(line.skip(p1), |b: u8| !is_space(b));
        if n1 < 1 {
            None
        } else {
            let p2 = p1 + n1;
            if !match_at(line, lit_open_bracket(), p2) {
                None
            } else {
                match first_match_from(line, lit_target_close(), p2 + 3) {
                    None => None,
                    Some(k) => {
                        let p3 = k + 15;
                        let n3 = run_len(line.skip(p3), |b: u8| !is_space(b));
                        if n3 < 1 {
                            None
                        } else {
                            Some(line.subrange(p3, p3 + n3))
                        }
                    },
                }
            }
        }
    }
}

/// What one diagnostic line reports.
#[derive(Debug)]
pub enum LineClass {
    /// Neither pattern matched; the line is ignored.
    Unrelated,
    /// `Completed <name> <version> in <duration>`: one unit finished.
    UnitCompleted { name: Vec<u8>, version: Vec<u8>, duration: Vec<u8> },
    /// `Finished <profile> [<flags>] target(s) in <duration>`: the build is
    /// done.
    RunFinished { duration: Vec<u8> },
}

/// The mathematical image of a classified line.
pub enum LineClassView {
    Unrelated,
    UnitCompleted { name: Seq<u8>, version: Seq<u8>, duration: Seq<u8> },
    RunFinished { duration: Seq<u8> },
}

impl View for LineClass {
    type V = LineClassView;

    open spec fn view(&self) -> LineClassView {
        match self {
            LineClass::Unrelated => LineClassView::Unrelated,
            LineClass::UnitCompleted { name, version, duration } => LineClassView::UnitCompleted {
                name: name@,
                version: version@,
                duration: duration@,
            },
            LineClass::RunFinished { duration } => LineClassView::RunFinished {
                duration: duration@,
            },
        }
    }
}

/// How one diagnostic line is classified: a `Completed` match wins, then a
/// `Finished` match, and everything else is unrelated.
pub open spec fn classify(line: Seq<u8>) -> LineClassView {
    match completed_parts(line) {
        Some(parts) => LineClassView::UnitCompleted {
            name: parts.0,
            version: parts.1,
            duration: parts.2,
        },
        None => match finished_duration(line) {
            Some(dur) => LineClassView::RunFinished { duration: dur },
            None => LineClassView::Unrelated,
        },
    }
}

/// Classifies one diagnostic line.
pub fn classify_line(line: &[u8]) -> (c: LineClass)
    ensures
        c@ == classify(line@),
{
    let end = line.len();
    proof {
        assert(line@.skip(0) =~= line@);
    }
    let w = space_run(line, 0);
    let pat_completed: [u8; 10] = [
        'C' as u8,
        'o' as u8,
        'm' as u8,
        'p' as u8,
        'l' as u8,
        'e' as u8,
        't' as u8,
        'e' as u8,
        'd' as u8,
        ' ' as u8,
    ];
    proof {
        assert(pat_completed@ =~= lit_completed());
    }
    if starts_with_at(line, w, pat_completed.as_slice()) {
        proof {
            assert(line@[w as int] == line@.subrange(w as int, w + 10)[0]);
            assert(line@[w as int] == 'C' as u8);
        }
        let p1 = w + 10;
        let n1 = token_run(line, p1);
        if n1 >= 1 {
            let p2 = p1 + n1;
            if p2 < end {
                let p3 = p2 + 1;
                let n2 = token_run(line, p3);
                if n2 >= 1 {
                    let p4 = p3 + n2;
                    let pat_in: [u8; 4] = [' ' as u8, 'i' as u8, 'n' as u8, ' ' as u8];
                    proof {
                        assert(pat_in@ =~= lit_in_sep());
                    }
                    if starts_with_at(line, p4, pat_in.as_slice()) {
                        let p5 = p4 + 4;
                        let n3 = token_run(line, p5);
                        if n3 >= 1 {
                            return LineClass::UnitCompleted {
                                name: copy_range(line, p1, p2),
                                version: copy_range(line, p3, p4),
                                duration: copy_range(line, p5, p5 + n3),
                            };
                        }
                    }
                }
            }
        }
        // The line opens like a unit report but does not complete one; it
        // cannot open like a summary line at the same position.
        proof {
            assert(completed_parts(line@) is None);
            assert(!match_at(line@, lit_finished(), w as int)) by {
                if match_at(line@, lit_finished(), w as int) {
                    assert(line@[w as int] == line@.subrange(w as int, w + 9)[0]);
                }
            }
        }
        return LineClass::Unrelated;
    }
    let pat_finished: [u8; 9] = [
        'F' as u8,
        'i' as u8,
        'n' as u8,
        'i' as u8,
        's' as u8,
        'h' as u8,
        'e' as u8,
        'd' as u8,
        ' ' as u8,
    ];
    proof {
        assert(pat_finished@ =~= lit_finished());
    }
    if starts_with_at(line, w, pat_finished.as_slice()) {
        let p1 = w + 9;
        let n1 = token_run(line, p1);
        if n1 >= 1 {
            let p2 = p1 + n1;
            let pat_ob: [u8; 2] = [' ' as u8, '[' as u8];
            proof {
                assert(pat_ob@ =~= lit_open_bracket());
            }
            if starts_with_at(line, p2, pat_ob.as_slice()) {
                proof {
                    assert(p2 + 2 <= end);
                }
                if p2 <= end - 3 {
                    let pat_close: [u8; 15] = [
                        ']' as u8,
                        ' ' as u8,
                        't' as u8,
                        'a' as u8,
                        'r' as u8,
                        'g' as u8,
                        'e' as u8,
                        't' as u8,
                        '(' as u8,
                        's' as u8,
                        ')' as u8,
                        ' ' as u8,
                        'i' as u8,
                        'n' as u8,
                        ' ' as u8,
                    ];
                    proof {
                        assert(pat_close@ =~= lit_target_close());
                        lemma_first_match_valid(line@, lit_target_close(), p2 + 3);
                    }
                    match find_from(line, p2 + 3, pat_close.as_slice()) {
                        Some(k) => {
                            let p3 = k + 15;
                            let n3 = token_run(line, p3);
                            if n3 >= 1 {
                                return LineClass::RunFinished {
                                    duration: copy_range(line, p3, p3 + n3),
                                };
                            }
                        },
                        None => {},
                    }
                }
            }
        }
    }
    LineClass::Unrelated
}

/// One candidate's timing results under one profile and feature set.
///
/// `units` counts every `Completed` line of the build, so it reflects the
/// whole dependency graph of the scaffolded project, not just the candidate;
/// `self_time` is the candidate's own unit duration (the most recent one, if
/// the build reports the candidate more than once); `total_time` is the
/// build's summary duration.  A stream without the matching lines leaves the
/// zero values in place.
#[derive(Debug)]
pub struct TimingRecord {
    pub name: Vec<u8>,
    pub profile: Profile,
    pub features: Features,
    pub total_time: Duration,
    pub self_time: Duration,
    pub units: u32,
}

/// The mathematical image of a timing record.
pub struct TimingRecordView {
    pub name: Seq<u8>,
    pub profile: Profile,
    pub features: Features,
    pub total_time: Duration,
    pub self_time: Duration,
    pub units: u32,
}

impl View for TimingRecord {
    type V = TimingRecordView;

    open spec fn view(&self) -> TimingRecordView {
        TimingRecordView {
            name: self.name@,
            profile: self.profile,
            features: self.features,
            total_time: self.total_time,
            self_time: self.self_time,
            units: self.units,
        }
    }
}

impl DeepView for TimingRecord {
    type V = TimingRecordView;

    open spec fn deep_view(&self) -> TimingRecordView {
        self.view()
    }
}

impl TimingRecord {
    /// A copy of the record.
    pub fn duplicate(&self) -> (r: TimingRecord)
        ensures
            r@ == self@,
    {
        TimingRecord {
            name: vstd::slice::slice_to_vec(self.name.as_slice()),
            profile: self.profile,
            features: self.features,
            total_time: self.total_time,
            self_time: self.self_time,
            units: self.units,
        }
    }
}

/// The accumulator the stream parser folds over the diagnostic lines.
pub struct ScanState {
    pub units: int,
    pub self_time: Duration,
    pub total_time: Duration,
}

/// The zero accumulator an empty stream yields.
pub open spec fn scan_zero() -> ScanState {
    ScanState {
        units: 0,
        self_time: Duration { secs: 0, nanos: 0 },
        total_time: Duration { secs: 0, nanos: 0 },
    }
}

/// One step of the stream fold.  A `Completed` line counts one unit
/// unconditionally; only when its unit name exactly equals the candidate's
/// declared name is its duration read (and overwritten on repetition).  A
/// `Finished` line sets the total.  A malformed duration on a line that is
/// read sinks the whole parse.
pub open spec fn scan_line(name: Seq<u8>, st: ScanState, line: Seq<u8>) -> Option<ScanState> {
    match classify(line) {
        LineClassView::Unrelated => Some(st),
        LineClassView::UnitCompleted { name: n, version: _, duration: d } => {
            if n == name {
                match spec_duration(d) {
                    None => None,
                    Some(dur) => Some(
                        ScanState {
                            units: st.units + 1,
                            self_time: dur,
                            total_time: st.total_time,
                        },
                    ),
                }
            } else {
                Some(
                    ScanState {
                        units: st.units + 1,
                        self_time: st.self_time,
                        total_time: st.total_time,
                    },
                )
            }
        },
        LineClassView::RunFinished { duration: d } => match spec_duration(d) {
            None => None,
            Some(dur) => Some(
                ScanState { units: st.units, self_time: st.self_time, total_time: dur },
            ),
        },
    }
}

/// The whole stream fold, in line order.
pub open spec fn scan_stream(name: Seq<u8>, lines: Seq<Seq<u8>>) -> Option<ScanState>
    decreases lines.len(),
{
    if lines.len() == 0 {
        Some(scan_zero())
    } else {
        match scan_stream(name, lines.drop_last()) {
            None => None,
            Some(st) => scan_line(name, st, lines.last()),
        }
    }
}

/// A failed prefix fails the whole stream.
pub proof fn lemma_scan_none_extends(name: Seq<u8>, lines: Seq<Seq<u8>>, j: int)
    requires
        0 <= j <= lines.len(),
        scan_stream(name, lines.take(j)) is None,
    ensures
        scan_stream(name, lines) is None,
    decreases lines.len() - j,
{
    if j < lines.len() {
        assert(lines.take(j + 1).drop_last() =~= lines.take(j));
        assert(scan_stream(name, lines.take(j + 1)) is None);
        lemma_scan_none_extends(name, lines, j + 1);
    } else {
        assert(lines.take(j) =~= lines);
    }
}

/// Why a diagnostic stream failed to parse.
#[derive(Clone, Copy, PartialEq, Eq, Structural, Debug)]
pub enum StreamError {
    /// A line that had to be read held a duration token outside the shape
    /// `<seconds>.<fraction>s` or beyond the representable range.
    MalformedDuration,
}

/// Folds a whole diagnostic stream into the timing record of the candidate
/// called `name`, built under `profile` and `features`.
///
/// Lines that match neither diagnostic pattern are ignored, so the parser
/// never fails on unrecognized input; it fails exactly when a duration it
/// must read is malformed.
pub fn parse_diagnostics(
    name: &[u8],
    profile: Profile,
    features: Features,
    lines: &Vec<Vec<u8>>,
) -> (r: Result<TimingRecord, StreamError>)
    requires
        lines@.len() <= u32::MAX,
    ensures
        match r {
            Ok(rec) => {
                &&& scan_stream(name@, lines.deep_view()) matches Some(st)
                &&& rec@ == (TimingRecordView {
                    name: name@,
                    profile,
                    features,
                    total_time: st.total_time,
                    self_time: st.self_time,
                    units: st.units as u32,
                })
                &&& rec@.total_time.wf()
                &&& rec@.self_time.wf()
            },
            Err(e) => {
                &&& scan_stream(name@, lines.deep_view()) is None
                &&& e == StreamError::MalformedDuration
            },
        },
{
    let ghost all = lines.deep_view();
    let mut units: u32 = 0;
    let mut self_time = Duration::zero();
    let mut total_time = Duration::zero();
    let mut i: usize = 0;
    proof {
        assert(all.take(0) =~= Seq::<Seq<u8>>::empty());
    }
    while i < lines.len()
        invariant
            0 <= i <= lines@.len(),
            lines@.len() <= u32::MAX,
            all == lines.deep_view(),
            units <= i,
            self_time.wf(),
            total_time.wf(),
            scan_stream(name@, all.take(i as int)) == Some(
                ScanState { units: units as int, self_time, total_time },
            ),
        decreases lines@.len() - i,
    {
        proof {
            assert(all[i as int] == lines@[i as int]@);
            assert(all.take(i + 1).drop_last() =~= all.take(i as int));
            assert(all.take(i + 1).last() == all[i as int]);
        }
        let ghost st = ScanState { units: units as int, self_time, total_time };
        let cls = classify_line(lines[i].as_slice());
        match cls {
            LineClass::Unrelated => {},
            LineClass::UnitCompleted { name: n, version: _, duration: d } => {
                if slices_eq(name, n.as_slice()) {
                    match parse_duration(d.as_slice()) {
                        Some(dur) => {
                            self_time = dur;
                            units = units + 1;
                        },
                        None => {
                            proof {
                                assert(scan_line(name@, st, all[i as int]) is None);
                                assert(scan_stream(name@, all.take(i + 1)) is None);
                                lemma_scan_none_extends(name@, all, i + 1);
                            }
                            return Err(StreamError::MalformedDuration);
                        },
                    }
                } else {
                    units = units + 1;
                }
            },
            LineClass::RunFinished { duration: d } => {
                match parse_duration(d.as_slice()) {
                    Some(dur) => {
                        total_time = dur;
                    },
                    None => {
                        proof {
                            assert(scan_line(name@, st, all[i as int]) is None);
                            assert(scan_stream(name@, all.take(i + 1)) is None);
                            lemma_scan_none_extends(name@, all, i + 1);
                        }
                        return Err(StreamError::MalformedDuration);
                    },
                }
            },
        }
        i = i + 1;
    }
    proof {
        assert(all.take(i as int) =~= all);
    }
    let own_name = vstd::slice::slice_to_vec(name);
    Ok(TimingRecord { name: own_name, profile, features, total_time, self_time, units })
}

} // verus!
