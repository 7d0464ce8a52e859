//! Report layout: the title row and one cell row per timing record.
//!
//! The rendered table is write-only and human-facing; this module computes
//! the exact cell text, and the caller only aligns and prints it.  The
//! profile and feature columns appear only when more than one value of that
//! axis was exercised, so a single-valued axis adds no noise.  Durations
//! are shown in seconds with one fractional digit, rounded half up; the
//! unit count is shown in full.

use vstd::prelude::*;
use crate::config::{Features, Profile};
use crate::text::{dec_digits, fmt_u128, fmt_u32};
use crate::timing::{Duration, TimingRecord, TimingRecordView};

verus! {

/// A duration in tenths of a second, rounded half up.
pub open spec fn tenths_of(d: Duration) -> int {
    (d.as_nanos() + 50_000_000) / 100_000_000
}

/// A duration cell: whole seconds, a dot, and the tenths digit.
pub open spec fn duration_cell(d: Duration) -> Seq<u8> {
    dec_digits((tenths_of(d) / 10) as nat) + seq!['.' as u8, ((tenths_of(d) % 10) + 48) as u8]
}

/// Renders a duration as seconds with one fractional digit.
pub fn fmt_duration_tenths(d: &Duration) -> (v: Vec<u8>)
    ensures
        v@ == duration_cell(*d),
{
    let total: u128 = d.secs as u128 * 1_000_000_000 + d.nanos as u128;
    let t: u128 = (total + 50_000_000) / 100_000_000;
    let mut v = fmt_u128(t / 10);
    v.push('.' as u8);
    v.push((t % 10) as u8 + 48);
    proof {
        assert(total == (*d).as_nanos());
        assert(v@ =~= duration_cell(*d));
    }
    v
}

/// The leftmost title, always present.
pub open spec fn lit_crate_col() -> Seq<u8> {
    seq!['c' as u8, 'r' as u8, 'a' as u8, 't' as u8, 'e' as u8]
}

/// The profile column title.
pub open spec fn lit_profile_col() -> Seq<u8> {
    seq!['p' as u8, 'r' as u8, 'o' as u8, 'f' as u8, 'i' as u8, 'l' as u8, 'e' as u8]
}

/// The feature-set column title.
pub open spec fn lit_features_col() -> Seq<u8> {
    seq!['f' as u8, 'e' as u8, 'a' as u8, 't' as u8, 'u' as u8, 'r' as u8, 'e' as u8, 's' as u8]
}

/// The total-time column title.
pub open spec fn lit_total_col() -> Seq<u8> {
    seq!['t' as u8, 'o' as u8, 't' as u8, 'a' as u8, 'l' as u8, ' ' as u8, '(' as u8, 's' as u8, ')' as u8]
}

/// The self-time column title.
pub open spec fn lit_self_col() -> Seq<u8> {
    seq!['s' as u8, 'e' as u8, 'l' as u8, 'f' as u8, ' ' as u8, '(' as u8, 's' as u8, ')' as u8]
}

/// The unit-count column title.
pub open spec fn lit_units_col() -> Seq<u8> {
    seq!['u' as u8, 'n' as u8, 'i' as u8, 't' as u8, 's' as u8]
}

/// The title row for a run that exercised the given number of profiles and
/// feature sets.
pub open spec fn spec_titles(nprofiles: int, nfeatures: int) -> Seq<Seq<u8>> {
    seq![lit_crate_col()] + (if nprofiles > 1 {
        seq![lit_profile_col()]
    } else {
        Seq::<Seq<u8>>::empty()
    }) + (if nfeatures > 1 {
        seq![lit_features_col()]
    } else {
        Seq::<Seq<u8>>::empty()
    }) + seq![lit_total_col(), lit_self_col(), lit_units_col()]
}

/// Lays out the title row; the profile and feature columns appear only when
/// that axis was exercised with more than one value.
pub fn report_titles(profiles: &Vec<Profile>, features: &Vec<Features>) -> (r: Vec<Vec<u8>>)
    ensures
        r.deep_view() == spec_titles(profiles@.len() as int, features@.len() as int),
{
    let col_crate: [u8; 5] = ['c' as u8, 'r' as u8, 'a' as u8, 't' as u8, 'e' as u8];
    let col_profile: [u8; 7] = [
        'p' as u8,
        'r' as u8,
        'o' as u8,
        'f' as u8,
        'i' as u8,
        'l' as u8,
        'e' as u8,
    ];
    let col_features: [u8; 8] = [
        'f' as u8,
        'e' as u8,
        'a' as u8,
        't' as u8,
        'u' as u8,
        'r' as u8,
        'e' as u8,
        's' as u8,
    ];
    let col_total: [u8; 9] = [
        't' as u8,
        'o' as u8,
        't' as u8,
        'a' as u8,
        'l' as u8,
        ' ' as u8,
        '(' as u8,
        's' as u8,
        ')' as u8,
    ];
    let col_self: [u8; 8] = [
        's' as u8,
        'e' as u8,
        'l' as u8,
        'f' as u8,
        ' ' as u8,
        '(' as u8,
        's' as u8,
        ')' as u8,
    ];
    let col_units: [u8; 5] = ['u' as u8, 'n' as u8, 'i' as u8, 't' as u8, 's' as u8];
    let mut r: Vec<Vec<u8>> = Vec::new();
    r.push(vstd::slice::slice_to_vec(col_crate.as_slice()));
    if profiles.len() > 1 {
        r.push(vstd::slice::slice_to_vec(col_profile.as_slice()));
    }
    if features.len() > 1 {
        r.push(vstd::slice::slice_to_vec(col_features.as_slice()));
    }
    r.push(vstd::slice::slice_to_vec(col_total.as_slice()));
    r.push(vstd::slice::slice_to_vec(col_self.as_slice()));
    r.push(vstd::slice::slice_to_vec(col_units.as_slice()));
    proof {
        assert(col_crate@ =~= lit_crate_col());
        assert(col_profile@ =~= lit_profile_col());
        assert(col_features@ =~= lit_features_col());
        assert(col_total@ =~= lit_total_col());
        assert(col_self@ =~= lit_self_col());
        assert(col_units@ =~= lit_units_col());
        assert(r.deep_view() =~~= spec_titles(profiles@.len() as int, features@.len() as int));
    }
    r
}

/// One record's row: its name, the optional profile and feature cells, and
/// the total-time, self-time and unit-count cells.
pub open spec fn spec_row(rec: TimingRecordView, show_profile: bool, show_features: bool) -> Seq<
    Seq<u8>,
> {
    seq![rec.name] + (if show_profile {
        seq![rec.profile.spec_name_bytes()]
    } else {
        Seq::<Seq<u8>>::empty()
    }) + (if show_features {
        seq![rec.features.spec_name_bytes()]
    } else {
        Seq::<Seq<u8>>::empty()
    }) + seq![
        duration_cell(rec.total_time),
        duration_cell(rec.self_time),
        dec_digits(rec.units as nat),
    ]
}

/// All rows, in record order.
pub open spec fn spec_rows(
    records: Seq<TimingRecordView>,
    show_profile: bool,
    show_features: bool,
) -> Seq<Seq<Seq<u8>>>
    decreases records.len(),
{
    if records.len() == 0 {
        Seq::empty()
    } else {
        seq![spec_row(records.first(), show_profile, show_features)] + spec_rows(
            records.drop_first(),
            show_profile,
            show_features,
        )
    }
}

/// Lays out one row per record, in order, with the same optional columns as
/// the title row.
pub fn report_rows(
    profiles: &Vec<Profile>,
    features: &Vec<Features>,
    records: &Vec<TimingRecord>,
) -> (r: Vec<Vec<Vec<u8>>>)
    ensures
        r.deep_view() == spec_rows(
            records.deep_view(),
            profiles@.len() > 1,
            features@.len() > 1,
        ),
{
    let ghost rs = records.deep_view();
    let ghost show_profile = profiles@.len() > 1;
    let ghost show_features = features@.len() > 1;
    let mut r: Vec<Vec<Vec<u8>>> = Vec::new();
    let mut i: usize = 0;
    proof {
        assert(rs.skip(0) =~= rs);
    }
    while i < records.len()
        invariant
            0 <= i <= rs.len(),
            rs == records.deep_view(),
            rs.len() == records@.len(),
            show_profile == (profiles@.len() > 1),
            show_features == (features@.len() > 1),
            spec_rows(rs, show_profile, show_features) == r.deep_view() + spec_rows(
                rs.skip(i as int),
                show_profile,
                show_features,
            ),
        decreases rs.len() - i,
    {
        proof {
            assert(rs.skip(i as int).first() == rs[i as int]);
            assert(rs.skip(i as int).drop_first() =~= rs.skip(i + 1));
            assert(rs[i as int] == records@[i as int]@);
        }
        let rec = &records[i];
        let mut row: Vec<Vec<u8>> = Vec::new();
        row.push(vstd::slice::slice_to_vec(rec.name.as_slice()));
        if profiles.len() > 1 {
            row.push(rec.profile.name_bytes());
        }
        if features.len() > 1 {
            row.push(rec.features.name_bytes());
        }
        row.push(fmt_duration_tenths(&rec.total_time));
        row.push(fmt_duration_tenths(&rec.self_time));
        row.push(fmt_u32(rec.units));
        proof {
            assert(row.deep_view() =~~= spec_row(rs[i as int], show_profile, show_features));
        }
        let ghost before = r.deep_view();
        r.push(row);
        proof {
            assert(r.deep_view() =~~= before + seq![
                spec_row(rs[i as int], show_profile, show_features),
            ]);
        }
        i = i + 1;
    }
    proof {
        assert(rs.skip(i as int) =~= Seq::<TimingRecordView>::empty());
        assert(r.deep_view() + spec_rows(rs.skip(i as int), show_profile, show_features)
            =~~= r.deep_view());
    }
    r
}

} // verus!
