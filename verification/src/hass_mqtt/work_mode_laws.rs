//! What holds of the work-mode model whatever the capability says: when
//! values make a slider, that range and presets exclude each other, that a
//! declared range wins, and how presets are labelled.

use crate::hass_mqtt::value_range::{is_run, lemma_run_bounds_of_run};
use crate::hass_mqtt::work_mode_model::{
    adjusted, all_exclusive, attached, can_attach, declared, parsed_modes, ranges_meet_no_values,
    WorkModeView,
};
use crate::json::{json_int, json_text};
use crate::platform_api::{DeviceCapability, EnumOption, OptionExtrasView};
use core::ops::Range;
use vstd::prelude::*;

verus! {

/// A mode without discrete values has no inferred range, so its range fits.
pub proof fn lemma_bare_fits(m: WorkModeView)
    requires
        m.values.len() == 0,
    ensures
        m.inferred_run() is None,
        m.range_fits(),
{
    assert(m.ints().len() == 0);
    assert forall|lo: int, hi: int| !is_run(m.ints(), lo, hi) by {}
}

/// Labelling the discrete values changes neither which of them are unnamed
/// integers nor those integers.
pub proof fn lemma_presets_keep_ints(m: WorkModeView)
    ensures
        m.as_presets().all_unnamed_ints() == m.all_unnamed_ints(),
        m.as_presets().ints() == m.ints(),
        m.as_presets().inferred_run() == m.inferred_run(),
{
    let p = m.as_presets();
    assert(p.values.len() == m.values.len());
    assert forall|i: int| 0 <= i < m.values.len() implies (#[trigger] p.values[i]).name
        == m.values[i].name && p.values[i].value == m.values[i].value by {}
    if m.all_unnamed_ints() {
        assert forall|i: int| 0 <= i < p.values.len() implies (#[trigger] p.values[i]).name is None
            && json_int(p.values[i].value) is Some by {
            assert(m.values[i].name is None);
        }
    }
    if p.all_unnamed_ints() {
        assert forall|i: int| 0 <= i < m.values.len() implies (#[trigger] m.values[i]).name is None
            && json_int(m.values[i].value) is Some by {
            assert(p.values[i].name is None);
        }
    }
    assert(p.ints() =~= m.ints());
}

/// A mode whose range fits still has a range that fits after extension data
/// is attached to it.
pub proof fn lemma_add_values_fits(m: WorkModeView, extras: OptionExtrasView)
    requires
        m.can_add_values(extras),
    ensures
        m.range_fits() ==> m.add_values(extras).range_fits(),
{
    if extras.range is None && extras.options is Some {
        let grown = m.with_options(extras.options.unwrap());
        lemma_presets_keep_ints(grown);
    }
}

/// Without a declared range, discrete values that are all unnamed integers
/// have a contiguous range exactly when they form a run, and the range is
/// then `lo .. hi + 1` for the run's bounds.
pub proof fn lemma_contiguous_iff_run(m: WorkModeView)
    requires
        m.value_range is None,
        m.all_unnamed_ints(),
    ensures
        m.contiguous_value_range() is Some <==> exists|lo: int, hi: int| is_run(m.ints(), lo, hi),
        forall|lo: int, hi: int|
            is_run(m.ints(), lo, hi) && hi < i64::MAX ==> m.contiguous_value_range() == Some(
                Range { start: lo as i64, end: (hi + 1) as i64 },
            ),
{
    assert forall|lo: int, hi: int| is_run(m.ints(), lo, hi) && hi < i64::MAX implies
        m.contiguous_value_range() == Some(Range { start: lo as i64, end: (hi + 1) as i64 }) by {
        lemma_run_bounds_of_run(m.ints(), lo, hi);
    }
}

/// Without a declared range, a discrete value that has a name rules a
/// contiguous range out, however the values count.
pub proof fn lemma_named_value_is_preset(m: WorkModeView, i: int)
    requires
        m.value_range is None,
        0 <= i < m.values.len(),
        m.values[i].name is Some,
    ensures
        m.contiguous_value_range() is None,
{
}

/// A declared range becomes the mode's range `min .. max + 1`, whatever
/// options stand beside it, and the discrete values stay as they were.
pub proof fn lemma_declared_range_wins(m: WorkModeView, extras: OptionExtrasView)
    requires
        extras.range is Some,
        extras.range.unwrap().max < i64::MAX,
    ensures
        m.add_values(extras).value_range == Some(
            Range { start: extras.range.unwrap().min, end: (extras.range.unwrap().max + 1) as i64 },
        ),
        m.add_values(extras).value_range.unwrap().end == extras.range.unwrap().max + 1,
        m.add_values(extras).values == m.values,
{
}

/// Every preset's label is `Activate {mode} Preset {name-or-value}`.
pub proof fn lemma_preset_labels(m: WorkModeView, i: int)
    requires
        0 <= i < m.values.len(),
    ensures
        m.as_presets().values[i].computed_label == "Activate "@ + m.name + " Preset "@ + (
        match m.values[i].name {
            Some(n) => n,
            None => json_text(m.values[i].value),
        }),
{
}

/// A mode never has both a range and discrete values, so long as no declared
/// range is attached to a mode that holds discrete values.
pub proof fn lemma_add_values_exclusive(m: WorkModeView, extras: OptionExtrasView)
    requires
        m.exclusive(),
        extras.range is Some ==> m.values.len() == 0,
    ensures
        m.add_values(extras).exclusive(),
{
}

/// What can be attached for `n` options can be attached for fewer.
pub proof fn lemma_can_attach_prefix(
    m: Map<Seq<char>, WorkModeView>,
    options: Seq<EnumOption>,
    n: int,
    k: int,
)
    requires
        can_attach(m, options, n),
        k <= n,
    ensures
        can_attach(m, options, k),
    decreases n,
{
    if k < n && n > 0 {
        lemma_can_attach_prefix(m, options, n - 1, k);
    }
}

/// Declaring bare modes keeps range and discrete values exclusive.
pub proof fn lemma_declared_exclusive(
    m: Map<Seq<char>, WorkModeView>,
    options: Seq<EnumOption>,
    n: int,
)
    requires
        all_exclusive(m),
    ensures
        all_exclusive(declared(m, options, n)),
    decreases n,
{
    if n > 0 {
        lemma_declared_exclusive(m, options, n - 1);
    }
}

/// Attaching extension data keeps range and discrete values exclusive in
/// every mode, so long as no range is declared for a mode that holds discrete
/// values.
pub proof fn lemma_attached_exclusive(
    m: Map<Seq<char>, WorkModeView>,
    options: Seq<EnumOption>,
    n: int,
)
    requires
        all_exclusive(m),
        ranges_meet_no_values(m, options, n),
    ensures
        all_exclusive(attached(m, options, n)),
    decreases n,
{
    if n > 0 {
        lemma_attached_exclusive(m, options, n - 1);
        let held = attached(m, options, n - 1);
        let o = options[n - 1];
        if held.dom().contains(o.name@) {
            lemma_add_values_exclusive(held[o.name@], o.extras@);
        }
    }
}

/// The modes read from a capability never have both a range and discrete
/// values, so long as none of its `modeValue` options declares a range for a
/// mode that holds discrete values by then.
pub proof fn lemma_parsed_modes_exclusive(cap: DeviceCapability)
    requires
        parsed_modes(cap) is Some,
        cap.spec_struct_field_by_name("modeValue"@) matches Some(mv) ==> ranges_meet_no_values(
            declared(
                Map::empty(),
                cap.spec_struct_field_by_name("workMode"@).unwrap().field_type.spec_options(),
                cap.spec_struct_field_by_name(
                    "workMode"@,
                ).unwrap().field_type.spec_options().len() as int,
            ),
            mv.field_type.spec_options(),
            mv.field_type.spec_options().len() as int,
        ),
    ensures
        all_exclusive(parsed_modes(cap).unwrap()),
{
    let names = cap.spec_struct_field_by_name("workMode"@).unwrap().field_type.spec_options();
    let bare = declared(Map::empty(), names, names.len() as int);
    lemma_declared_exclusive(Map::empty(), names, names.len() as int);
    match cap.spec_struct_field_by_name("modeValue"@) {
        Some(mv) => {
            lemma_attached_exclusive(
                bare,
                mv.field_type.spec_options(),
                mv.field_type.spec_options().len() as int,
            );
        },
        None => {},
    }
}

/// The label overrides change no mode's range or discrete values.
pub proof fn lemma_adjusted_exclusive(m: Map<Seq<char>, WorkModeView>, sku: Seq<char>)
    requires
        all_exclusive(m),
    ensures
        all_exclusive(adjusted(m, sku)),
{
    let a = adjusted(m, sku);
    assert forall|k: Seq<char>| a.dom().contains(k) implies (#[trigger] a[k]).exclusive() by {
        assert(m.dom().contains(k));
        assert(m[k].exclusive());
    }
}

} // verus!
