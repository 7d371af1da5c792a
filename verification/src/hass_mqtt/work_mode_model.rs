//! The work-mode capability as mathematics: what a mode is, what attaching
//! extension data makes of it, and what a capability and a device model make
//! of a whole set of modes.

use crate::hass_mqtt::value_range::run_bounds;
use crate::hass_mqtt::work_mode::WorkModeError;
use crate::json::{json_int, json_text};
use crate::platform_api::{
    first_capability_of, DeviceCapability, EnumOption, ModeOptionView, OptionExtrasView,
};
use crate::service::device::Device;
use core::ops::Range;
use vstd::prelude::*;

verus! {

/// A `WorkModeValue` with its texts as sequences of characters.
pub struct WorkModeValueView {
    pub value: serde_json::Value,
    pub name: Option<Seq<char>>,
    pub computed_label: Seq<char>,
}

/// A `WorkMode` with its texts as sequences of characters and its values as a
/// sequence of views.
pub struct WorkModeView {
    pub name: Seq<char>,
    pub value: serde_json::Value,
    pub label: Seq<char>,
    pub values: Seq<WorkModeValueView>,
    pub value_range: Option<Range<i64>>,
}

/// The label of a preset: `Activate {mode} Preset {option}`.
pub open spec fn preset_label(mode: Seq<char>, option: Seq<char>) -> Seq<char> {
    "Activate "@ + mode + " Preset "@ + option
}

/// The value that an option of the extension data starts as: its value and
/// name, with no label yet.
pub open spec fn unlabelled(option: ModeOptionView) -> WorkModeValueView {
    WorkModeValueView { value: option.value, name: option.name, computed_label: Seq::empty() }
}

impl WorkModeValueView {
    /// What the label calls this value: its name, or without one its JSON
    /// text.
    pub open spec fn option_name(self) -> Seq<char> {
        match self.name {
            Some(n) => n,
            None => json_text(self.value),
        }
    }

    /// This value with the preset label that it has in the mode called `mode`.
    pub open spec fn labelled(self, mode: Seq<char>) -> WorkModeValueView {
        WorkModeValueView { computed_label: preset_label(mode, self.option_name()), ..self }
    }
}

impl WorkModeView {
    /// A mode that has only its name and selector value.
    pub open spec fn bare(name: Seq<char>, value: serde_json::Value) -> WorkModeView {
        WorkModeView {
            name,
            value,
            label: Seq::empty(),
            values: Seq::empty(),
            value_range: None,
        }
    }

    /// Every discrete value is an integer without a name.
    pub open spec fn all_unnamed_ints(self) -> bool {
        forall|i: int|
            0 <= i < self.values.len() ==> (#[trigger] self.values[i]).name is None && json_int(
                self.values[i].value,
            ) is Some
    }

    /// The integers of the discrete values.
    pub open spec fn ints(self) -> Seq<i64> {
        self.values.map_values(|v: WorkModeValueView| json_int(v.value).unwrap())
    }

    /// The bounds of the run that the discrete values form: `Some` where all
    /// of them are unnamed integers that make an unbroken run.
    pub open spec fn inferred_run(self) -> Option<(int, int)> {
        if self.all_unnamed_ints() {
            run_bounds(self.ints())
        } else {
            None
        }
    }

    /// The half-open range of this mode, if it has one, fits in `i64`: it was
    /// declared, or the run inferred from the discrete values ends below
    /// `i64::MAX`.
    pub open spec fn range_fits(self) -> bool {
        self.value_range is None ==> match self.inferred_run() {
            Some(b) => b.1 < i64::MAX,
            None => true,
        }
    }

    /// The contiguous range of this mode: the declared one, or else the one
    /// inferred from discrete values that are unnamed consecutive integers.
    pub open spec fn contiguous_value_range(self) -> Option<Range<i64>> {
        if self.value_range is Some {
            self.value_range
        } else {
            match self.inferred_run() {
                Some(b) => Some(Range { start: b.0 as i64, end: (b.1 + 1) as i64 }),
                None => None,
            }
        }
    }

    /// The mode is a bare selector: it has neither a range nor discrete
    /// values.
    pub open spec fn should_show_as_preset(self) -> bool {
        self.contiguous_value_range() is None && self.values.len() == 0
    }

    /// The label to display: the override where there is one, else the name.
    pub open spec fn display_label(self) -> Seq<char> {
        if self.label.len() == 0 {
            self.name
        } else {
            self.label
        }
    }

    /// At most one of range and discrete values is there.
    pub open spec fn exclusive(self) -> bool {
        !(self.value_range is Some && self.values.len() > 0)
    }

    /// This mode with the given options appended to its discrete values.
    pub open spec fn with_options(self, options: Seq<ModeOptionView>) -> WorkModeView {
        WorkModeView {
            values: self.values + options.map_values(|o: ModeOptionView| unlabelled(o)),
            ..self
        }
    }

    /// This mode as a slider over `range`, with no discrete values.
    pub open spec fn as_slider(self, range: Range<i64>) -> WorkModeView {
        WorkModeView { values: Seq::empty(), value_range: Some(range), ..self }
    }

    /// This mode with every discrete value labelled as a preset.
    pub open spec fn as_presets(self) -> WorkModeView {
        WorkModeView {
            values: self.values.map_values(|v: WorkModeValueView| v.labelled(self.name)),
            ..self
        }
    }

    /// The mode after the extension data of a `modeValue` option is attached.
    /// A declared range wins and leaves everything else as it is. Otherwise a
    /// list of options is appended to the discrete values; if the mode then
    /// has a contiguous range it becomes a slider, else all its values are
    /// labelled as presets. Extension data of neither shape changes nothing.
    pub open spec fn add_values(self, extras: OptionExtrasView) -> WorkModeView {
        match extras.range {
            Some(r) => WorkModeView {
                value_range: Some(Range { start: r.min, end: (r.max + 1) as i64 }),
                ..self
            },
            None => match extras.options {
                Some(options) => {
                    let grown = self.with_options(options);
                    match grown.contiguous_value_range() {
                        Some(range) => grown.as_slider(range),
                        None => grown.as_presets(),
                    }
                },
                None => self,
            },
        }
    }

    /// Attaching `extras` stays within `i64`: a declared range ends below
    /// `i64::MAX`, and so does a range inferred once the options are appended.
    pub open spec fn can_add_values(self, extras: OptionExtrasView) -> bool {
        match extras.range {
            Some(r) => r.max < i64::MAX,
            None => match extras.options {
                Some(options) => self.with_options(options).range_fits(),
                None => true,
            },
        }
    }
}

/// The least position from `from` on whose mode satisfies `wanted`.
pub open spec fn first_where(
    modes: Seq<WorkModeView>,
    wanted: spec_fn(WorkModeView) -> bool,
    from: int,
) -> Option<int>
    decreases modes.len() - from,
{
    if from < 0 || from >= modes.len() {
        None
    } else if wanted(modes[from]) {
        Some(from)
    } else {
        first_where(modes, wanted, from + 1)
    }
}

/// The rows of the label table: for a device model, the mode that is
/// relabelled and its label.
pub open spec fn label_override(sku: Seq<char>) -> Option<(Seq<char>, Seq<char>)> {
    if sku == "H7160"@ || sku == "H7143"@ {
        Some(("Manual"@, "Manual: Mist Level"@))
    } else if sku == "H7131"@ {
        Some(("gearMode"@, "Heat"@))
    } else {
        None
    }
}

/// A mode labelled with its own name.
pub open spec fn named(m: WorkModeView) -> WorkModeView {
    WorkModeView { label: m.name, ..m }
}

/// The modes after the label overrides for the device model `sku`.
pub open spec fn adjusted(m: Map<Seq<char>, WorkModeView>, sku: Seq<char>) -> Map<
    Seq<char>,
    WorkModeView,
> {
    match label_override(sku) {
        Some((key, label)) => if m.dom().contains(key) {
            m.insert(key, WorkModeView { label, ..m[key] })
        } else {
            m
        },
        None => m.map_values(|w: WorkModeView| named(w)),
    }
}

/// The modes after a bare mode is declared for each of the first `n` options.
pub open spec fn declared(
    m: Map<Seq<char>, WorkModeView>,
    options: Seq<EnumOption>,
    n: int,
) -> Map<Seq<char>, WorkModeView>
    decreases n,
{
    if n <= 0 {
        m
    } else {
        let o = options[n - 1];
        declared(m, options, n - 1).insert(o.name@, WorkModeView::bare(o.name@, o.value))
    }
}

/// The modes after the extension data of each of the first `n` options is
/// attached to the mode of its name.
pub open spec fn attached(
    m: Map<Seq<char>, WorkModeView>,
    options: Seq<EnumOption>,
    n: int,
) -> Map<Seq<char>, WorkModeView>
    decreases n,
{
    if n <= 0 {
        m
    } else {
        let held = attached(m, options, n - 1);
        let o = options[n - 1];
        if held.dom().contains(o.name@) {
            held.insert(o.name@, held[o.name@].add_values(o.extras@))
        } else {
            held
        }
    }
}

/// Attaching the first `n` options stays within `i64` at every step.
pub open spec fn can_attach(
    m: Map<Seq<char>, WorkModeView>,
    options: Seq<EnumOption>,
    n: int,
) -> bool
    decreases n,
{
    n <= 0 || {
        let held = attached(m, options, n - 1);
        let o = options[n - 1];
        &&& can_attach(m, options, n - 1)
        &&& held.dom().contains(o.name@) ==> held[o.name@].can_add_values(o.extras@)
    }
}

/// The modes that a capability declares, `None` where it has no `workMode`
/// field.
pub open spec fn parsed_modes(cap: DeviceCapability) -> Option<Map<Seq<char>, WorkModeView>> {
    match cap.spec_struct_field_by_name("workMode"@) {
        None => None,
        Some(wm) => {
            let names = wm.field_type.spec_options();
            let bare = declared(Map::empty(), names, names.len() as int);
            match cap.spec_struct_field_by_name("modeValue"@) {
                Some(mv) => Some(
                    attached(
                        bare,
                        mv.field_type.spec_options(),
                        mv.field_type.spec_options().len() as int,
                    ),
                ),
                None => Some(bare),
            }
        },
    }
}

/// Reading the capability stays within `i64`: every range that it declares or
/// implies ends below `i64::MAX`.
pub open spec fn can_parse(cap: DeviceCapability) -> bool {
    match (cap.spec_struct_field_by_name("workMode"@), cap.spec_struct_field_by_name("modeValue"@)) {
        (Some(wm), Some(mv)) => {
            let names = wm.field_type.spec_options();
            can_attach(
                declared(Map::empty(), names, names.len() as int),
                mv.field_type.spec_options(),
                mv.field_type.spec_options().len() as int,
            )
        },
        _ => true,
    }
}

/// The modes of a device, or why they cannot be read.
pub open spec fn device_modes(device: Device) -> Result<Map<Seq<char>, WorkModeView>, WorkModeError> {
    match device.http_device_info {
        None => Err(WorkModeError::NoPlatformState),
        Some(info) => match first_capability_of(info.capabilities@, "workMode"@, 0) {
            None => Err(WorkModeError::NoWorkModeCapability),
            Some(cap) => match parsed_modes(cap) {
                None => Err(WorkModeError::WorkModeFieldMissing),
                Some(modes) => Ok(adjusted(modes, device.sku@)),
            },
        },
    }
}

/// Reading the modes of the device stays within `i64`.
pub open spec fn can_parse_device(device: Device) -> bool {
    match device.http_device_info {
        None => true,
        Some(info) => match first_capability_of(info.capabilities@, "workMode"@, 0) {
            None => true,
            Some(cap) => can_parse(cap),
        },
    }
}

/// No mode of `m` has both a range and discrete values.
pub open spec fn all_exclusive(m: Map<Seq<char>, WorkModeView>) -> bool {
    forall|k: Seq<char>| m.dom().contains(k) ==> (#[trigger] m[k]).exclusive()
}

/// Among the first `n` options, none declares a range for a mode that holds
/// discrete values when the option's turn comes.
pub open spec fn ranges_meet_no_values(
    m: Map<Seq<char>, WorkModeView>,
    options: Seq<EnumOption>,
    n: int,
) -> bool
    decreases n,
{
    n <= 0 || {
        let held = attached(m, options, n - 1);
        let o = options[n - 1];
        &&& ranges_meet_no_values(m, options, n - 1)
        &&& held.dom().contains(o.name@) && o.extras@.range is Some ==> held[o.name@].values.len()
            == 0
    }
}

} // verus!
