//! The work-mode capability as a normalised control model: each mode is a
//! slider over a contiguous integer range, a set of discrete presets, or a
//! bare selector.

use crate::hass_mqtt::value_range::{
    infer_contiguous_range, infer_run, is_run, lemma_run_bounds_of_run,
};
use crate::hass_mqtt::work_mode_laws::{
    lemma_add_values_fits, lemma_bare_fits, lemma_can_attach_prefix,
};
use crate::hass_mqtt::work_mode_model::{
    adjusted, attached, can_attach, can_parse, can_parse_device, declared, device_modes,
    first_where, label_override, named, parsed_modes, preset_label, unlabelled,
    WorkModeValueView, WorkModeView,
};
use crate::json::{json_int, json_same, value_text};
use crate::platform_api::{DeviceCapability, DeviceParameters, EnumOption, ModeOption};
use crate::service::device::Device;
use crate::text::{
    lemma_place_after, lemma_text_lt_transitive, lemma_text_order_exclusive, place, same_text,
    sort_texts, text_lt, texts_ascending, texts_of, Place,
};
use core::ops::Range;
use vstd::prelude::*;
use vstd::string::*;

verus! {

/// Why the modes of a device could not be read.
#[derive(Clone, Copy, Debug, PartialEq, Eq, Structural)]
pub enum WorkModeError {
    /// The device has no descriptor from the cloud API.
    NoPlatformState,
    /// The descriptor declares no capability with the instance `workMode`.
    NoWorkModeCapability,
    /// The capability has no struct field `workMode`.
    WorkModeFieldMissing,
}

impl WorkModeError {
    /// The text of each error.
    pub open spec fn spec_message(self) -> Seq<char> {
        match self {
            WorkModeError::NoPlatformState => "no platform state, so no known work mode"@,
            WorkModeError::NoWorkModeCapability => "device has no workMode capability"@,
            WorkModeError::WorkModeFieldMissing => "workMode not found in the capability"@,
        }
    }

    /// The error as text.
    pub fn message(&self) -> (r: String)
        ensures
            r@ == self.spec_message(),
    {
        match self {
            WorkModeError::NoPlatformState => String::from_str(
                "no platform state, so no known work mode",
            ),
            WorkModeError::NoWorkModeCapability => String::from_str(
                "device has no workMode capability",
            ),
            WorkModeError::WorkModeFieldMissing => String::from_str(
                "workMode not found in the capability",
            ),
        }
    }
}

/// One discrete value of a mode.
#[derive(Debug)]
pub struct WorkModeValue {
    pub value: serde_json::Value,
    pub name: Option<String>,
    pub computed_label: String,
}

impl View for WorkModeValue {
    type V = WorkModeValueView;

    open spec fn view(&self) -> WorkModeValueView {
        WorkModeValueView {
            value: self.value,
            name: match self.name {
                Some(n) => Some(n@),
                None => None,
            },
            computed_label: self.computed_label@,
        }
    }
}

/// One operating mode of a device.
#[derive(Debug)]
pub struct WorkMode {
    pub name: String,
    pub value: serde_json::Value,
    pub label: String,
    pub values: Vec<WorkModeValue>,
    pub value_range: Option<Range<i64>>,
}

impl View for WorkMode {
    type V = WorkModeView;

    open spec fn view(&self) -> WorkModeView {
        WorkModeView {
            name: self.name@,
            value: self.value,
            label: self.label@,
            values: self.values@.map_values(|v: WorkModeValue| v@),
            value_range: self.value_range,
        }
    }
}

/// Builds the label of a preset from the mode's name and the option's name.
pub fn make_preset_label(mode: &str, option: &str) -> (r: String)
    ensures
        r@ == preset_label(mode@, option@),
{
    let mut label = String::from_str("Activate ");
    label.append(mode);
    label.append(" Preset ");
    label.append(option);
    label
}

/// A copy of an optional name.
fn copy_name(name: &Option<String>) -> (r: Option<String>)
    ensures
        match (r, *name) {
            (Some(a), Some(b)) => a@ == b@,
            (None, None) => true,
            _ => false,
        },
{
    match name {
        Some(n) => Some(n.clone()),
        None => None,
    }
}

impl WorkMode {
    /// A mode with a name and a selector value, and nothing else yet.
    pub fn new(name: String, value: serde_json::Value) -> (r: WorkMode)
        ensures
            r@ == WorkModeView::bare(name@, value),
    {
        let r = WorkMode {
            name,
            value,
            label: String::new(),
            values: Vec::new(),
            value_range: None,
        };
        assert(r@.values =~= Seq::empty());
        r
    }

    /// Appends the options to the discrete values, without labels.
    fn push_options(&mut self, options: &Vec<ModeOption>)
        ensures
            final(self)@ == old(self)@.with_options(options@.map_values(|m: ModeOption| m@)),
            final(self).values@.len() == old(self).values@.len() + options@.len(),
            final(self).values@.subrange(0, old(self).values@.len() as int) == old(self).values@,
    {
        let ghost before = self@;
        let ghost added = options@.map_values(|m: ModeOption| m@);
        let mut i: usize = 0;
        assert(added.take(0) =~= Seq::empty());
        assert(self@.values =~= before.with_options(added.take(0)).values);
        while i < options.len()
            invariant
                i <= options@.len(),
                added == options@.map_values(|m: ModeOption| m@),
                self@ == before.with_options(added.take(i as int)),
                self.values@.len() == old(self).values@.len() + i,
                self.values@.subrange(0, old(self).values@.len() as int) == old(self).values@,
            decreases options@.len() - i,
        {
            let fresh = WorkModeValue {
                value: options[i].value.clone(),
                name: copy_name(&options[i].name),
                computed_label: String::new(),
            };
            let ghost fresh_view = fresh@;
            let ghost held = self@;
            let ghost held_values = self.values@;
            self.values.push(fresh);
            proof {
                assert(fresh_view == unlabelled(added[i as int]));
                assert(added.take(i + 1) =~= added.take(i as int).push(added[i as int]));
                assert(self@.values =~= held.values.push(fresh_view));
                assert(self@.values =~= before.with_options(added.take(i + 1)).values);
                assert(self.values@.subrange(0, old(self).values@.len() as int)
                    =~= held_values.subrange(0, old(self).values@.len() as int));
            }
            i = i + 1;
        }
        proof {
            assert(added.take(i as int) =~= added);
        }
    }

    /// Makes the mode a slider where it has a contiguous range, and labels
    /// its discrete values as presets where it has none.
    fn settle(&mut self)
        requires
            old(self)@.range_fits(),
        ensures
            final(self)@ == (match old(self)@.contiguous_value_range() {
                Some(range) => old(self)@.as_slider(range),
                None => old(self)@.as_presets(),
            }),
    {
        let ghost grown = self@;
        match self.contiguous_value_range() {
            Some(range) => {
                self.values.clear();
                self.value_range = Some(range);
                assert(self@.values =~= grown.as_slider(range).values);
            },
            None => {
                let mut j: usize = 0;
                while j < self.values.len()
                    invariant
                        j <= self.values@.len(),
                        self.values@.len() == grown.values.len(),
                        self@.name == grown.name,
                        self@.value == grown.value,
                        self@.label == grown.label,
                        self@.value_range == grown.value_range,
                        forall|k: int|
                            0 <= k < j ==> (#[trigger] self.values@[k])@
                                == grown.values[k].labelled(grown.name),
                        forall|k: int|
                            j <= k < self.values@.len() ==> (#[trigger] self.values@[k])@
                                == grown.values[k],
                    decreases self.values@.len() - j,
                {
                    let option_name = match &self.values[j].name {
                        Some(name) => name.clone(),
                        None => value_text(&self.values[j].value),
                    };
                    let label = make_preset_label(self.name.as_str(), option_name.as_str());
                    self.values[j].computed_label = label;
                    j = j + 1;
                }
                assert(self@.values =~= grown.as_presets().values);
            },
        }
    }

    /// Attaches the extension data of the `modeValue` option `opt` to this
    /// mode: a declared range wins, else listed options are appended and the
    /// mode becomes a slider or a set of labelled presets.
    ///
    /// The ranges involved must fit in `i64`; `try_add_values` tests that
    /// itself.
    pub fn add_values(&mut self, opt: &EnumOption)
        requires
            old(self)@.can_add_values(opt.extras@),
        ensures
            final(self)@ == old(self)@.add_values(opt.extras@),
            old(self)@.range_fits() ==> final(self)@.range_fits(),
    {
        proof {
            lemma_add_values_fits(self@, opt.extras@);
        }
        if let Some(range) = &opt.extras.range {
            self.value_range = Some(Range { start: range.min, end: range.max + 1 });
            return ;
        }
        let Some(options) = &opt.extras.options else {
            return ;
        };
        self.push_options(options);
        self.settle();
    }

    /// Attaches the extension data of `opt` where that stays within `i64`,
    /// and says whether it did. Where a range that `opt` declares or implies
    /// would end beyond `i64::MAX`, the mode is left as it was.
    pub fn try_add_values(&mut self, opt: &EnumOption) -> (r: bool)
        ensures
            r == old(self)@.can_add_values(opt.extras@),
            r ==> final(self)@ == old(self)@.add_values(opt.extras@),
            !r ==> final(self)@ == old(self)@,
            r && old(self)@.range_fits() ==> final(self)@.range_fits(),
    {
        if let Some(range) = &opt.extras.range {
            if range.max == i64::MAX {
                return false;
            }
            proof {
                lemma_add_values_fits(self@, opt.extras@);
            }
            self.value_range = Some(Range { start: range.min, end: range.max + 1 });
            return true;
        }
        let Some(options) = &opt.extras.options else {
            return true;
        };
        let held: usize = self.values.len();
        self.push_options(options);
        if !self.range_fits() {
            self.values.truncate(held);
            assert(self@.values =~= old(self)@.values);
            return false;
        }
        proof {
            lemma_add_values_fits(old(self)@, opt.extras@);
        }
        self.settle();
        true
    }

    /// The label to display: the override where there is one, else the name.
    pub fn label(&self) -> (r: &str)
        ensures
            r@ == self@.display_label(),
    {
        if self.label.as_str().is_empty() {
            self.name.as_str()
        } else {
            self.label.as_str()
        }
    }

    /// The integers of the discrete values, where every value is an integer
    /// without a name.
    fn unnamed_ints(&self) -> (r: Option<Vec<i64>>)
        ensures
            match r {
                Some(ints) => self@.all_unnamed_ints() && ints@ == self@.ints(),
                None => !self@.all_unnamed_ints(),
            },
    {
        let mut values: Vec<i64> = Vec::new();
        let mut i: usize = 0;
        while i < self.values.len()
            invariant
                i <= self.values@.len(),
                values@.len() == i,
                forall|k: int|
                    0 <= k < i ==> (#[trigger] self@.values[k]).name is None && json_int(
                        self@.values[k].value,
                    ) == Some(values@[k]),
            decreases self.values@.len() - i,
        {
            let item = self.values[i].value.as_i64();
            if item.is_none() || self.values[i].name.is_some() {
                assert(!(self@.values[i as int].name is None && json_int(
                    self@.values[i as int].value,
                ) is Some));
                return None;
            }
            values.push(item.unwrap());
            i = i + 1;
        }
        assert(values@ =~= self@.ints());
        Some(values)
    }

    /// Whether the half-open range of this mode fits in `i64`: it does unless
    /// the discrete values form a run that ends at `i64::MAX`.
    pub fn range_fits(&self) -> (r: bool)
        ensures
            r == self@.range_fits(),
    {
        if self.value_range.is_some() {
            return true;
        }
        match self.unnamed_ints() {
            Some(ints) => match infer_run(ints) {
                Some(bounds) => bounds.1 < i64::MAX,
                None => true,
            },
            None => true,
        }
    }

    /// The contiguous range of this mode: its declared range, or the range
    /// `lo .. hi + 1` where its discrete values are unnamed integers that form
    /// an unbroken run from `lo` to `hi`, in whatever order. `None` where a
    /// value has a name or is no integer, where the integers leave a gap or
    /// repeat, and where there are no values.
    ///
    /// An inferred range must fit in `i64`, which `range_fits` tells;
    /// `checked_contiguous_value_range` tests that itself.
    pub fn contiguous_value_range(&self) -> (r: Option<Range<i64>>)
        requires
            self@.range_fits(),
        ensures
            r == self@.contiguous_value_range(),
    {
        if let Some(range) = &self.value_range {
            return Some(Range { start: range.start, end: range.end });
        }
        match self.unnamed_ints() {
            Some(ints) => {
                proof {
                    if exists|lo: int| is_run(ints@, lo, i64::MAX as int) {
                        let lo = choose|lo: int| is_run(ints@, lo, i64::MAX as int);
                        lemma_run_bounds_of_run(ints@, lo, i64::MAX as int);
                    }
                }
                infer_contiguous_range(ints)
            },
            None => None,
        }
    }

    /// The contiguous range of this mode where it fits in `i64`; `None` where
    /// the discrete values form a run that ends at `i64::MAX`, whose
    /// half-open range `i64` cannot hold.
    pub fn checked_contiguous_value_range(&self) -> (r: Option<Option<Range<i64>>>)
        ensures
            match r {
                Some(range) => self@.range_fits() && range == self@.contiguous_value_range(),
                None => !self@.range_fits(),
            },
    {
        if self.range_fits() {
            Some(self.contiguous_value_range())
        } else {
            None
        }
    }

    /// Whether the mode is to be shown as a single preset: it has neither a
    /// contiguous range nor discrete values.
    ///
    /// An inferred range must fit in `i64`, which `range_fits` tells.
    pub fn should_show_as_preset(&self) -> (r: bool)
        requires
            self@.range_fits(),
        ensures
            r == self@.should_show_as_preset(),
    {
        self.contiguous_value_range().is_none() && self.values.is_empty()
    }
}

/// Looks a device model up in the label table.
pub fn label_override_for(sku: &str) -> (r: Option<(&'static str, &'static str)>)
    ensures
        match r {
            Some(row) => label_override(sku@) == Some((row.0@, row.1@)),
            None => label_override(sku@) is None,
        },
{
    if same_text(sku, "H7160") || same_text(sku, "H7143") {
        Some(("Manual", "Manual: Mist Level"))
    } else if same_text(sku, "H7131") {
        Some(("gearMode", "Heat"))
    } else {
        None
    }
}

/// One entry of a `ParsedWorkMode`: a mode under the key it was added with.
#[derive(Debug)]
pub struct ModeEntry {
    pub key: String,
    pub mode: WorkMode,
}

/// The modes of one device's work-mode capability, keyed by name and held in
/// the order of their keys.
#[derive(Debug)]
pub struct ParsedWorkMode {
    pub modes: Vec<ModeEntry>,
}

impl View for ParsedWorkMode {
    type V = Map<Seq<char>, WorkModeView>;

    open spec fn view(&self) -> Map<Seq<char>, WorkModeView> {
        Map::new(
            |k: Seq<char>| self.spec_has_key(k),
            |k: Seq<char>| self.modes@[self.spec_position(k)].mode@,
        )
    }
}

impl ParsedWorkMode {
    /// The key held at position `i`.
    pub open spec fn key_at(&self, i: int) -> Seq<char> {
        self.modes@[i].key@
    }

    /// Some entry has the key `key`.
    pub open spec fn spec_has_key(&self, key: Seq<char>) -> bool {
        exists|i: int| 0 <= i < self.modes@.len() && #[trigger] self.key_at(i) == key
    }

    /// The position of the entry with the key `key`.
    pub open spec fn spec_position(&self, key: Seq<char>) -> int {
        choose|i: int| 0 <= i < self.modes@.len() && #[trigger] self.key_at(i) == key
    }

    /// The keys, in the order in which the entries are held.
    pub open spec fn keys(&self) -> Seq<Seq<char>> {
        self.modes@.map_values(|e: ModeEntry| e.key@)
    }

    /// The modes, in the order in which the entries are held.
    pub open spec fn in_order(&self) -> Seq<WorkModeView> {
        self.modes@.map_values(|e: ModeEntry| e.mode@)
    }

    /// The entries are held in strictly ascending order of their keys, so no
    /// key occurs twice.
    pub open spec fn wf(&self) -> bool {
        forall|i: int, j: int|
            0 <= i < j < self.modes@.len() ==> #[trigger] text_lt(self.key_at(i), self.key_at(j))
    }

    /// The half-open range of every mode fits in `i64`.
    pub open spec fn ranges_fit(&self) -> bool {
        forall|i: int| 0 <= i < self.modes@.len() ==> (#[trigger] self.modes@[i]).mode@.range_fits()
    }

    /// In a well-formed collection two positions with the same key are one
    /// position.
    pub proof fn lemma_keys_differ(&self, i: int, j: int)
        requires
            self.wf(),
            0 <= i < self.modes@.len(),
            0 <= j < self.modes@.len(),
            self.key_at(i) == self.key_at(j),
        ensures
            i == j,
    {
        if i < j {
            assert(text_lt(self.key_at(i), self.key_at(j)));
            lemma_text_order_exclusive(self.key_at(i), self.key_at(j));
        } else if j < i {
            assert(text_lt(self.key_at(j), self.key_at(i)));
            lemma_text_order_exclusive(self.key_at(j), self.key_at(i));
        }
    }

    /// The view maps each key to the mode held with it.
    pub proof fn lemma_entry(&self, i: int)
        requires
            self.wf(),
            0 <= i < self.modes@.len(),
        ensures
            self.spec_has_key(self.key_at(i)),
            self@.dom().contains(self.key_at(i)),
            self.spec_position(self.key_at(i)) == i,
            self@[self.key_at(i)] == self.modes@[i].mode@,
    {
        let k = self.key_at(i);
        let j = self.spec_position(k);
        self.lemma_keys_differ(i, j);
    }

    /// Putting a mode in the place of the one held at `at`, under the same
    /// key, is an insertion into the view.
    pub proof fn lemma_replaced(before: ParsedWorkMode, after: ParsedWorkMode, at: int)
        requires
            before.wf(),
            0 <= at < before.modes@.len(),
            after.modes@.len() == before.modes@.len(),
            forall|i: int|
                0 <= i < before.modes@.len() ==> #[trigger] after.key_at(i) == before.key_at(i),
            forall|i: int|
                0 <= i < before.modes@.len() && i != at ==> (#[trigger] after.modes@[i]).mode
                    == before.modes@[i].mode,
        ensures
            after.wf(),
            after@ == before@.insert(before.key_at(at), after.modes@[at].mode@),
    {
        assert forall|i: int, j: int| 0 <= i < j < after.modes@.len() implies #[trigger] text_lt(
            after.key_at(i),
            after.key_at(j),
        ) by {
            assert(text_lt(before.key_at(i), before.key_at(j)));
        }
        let target = before@.insert(before.key_at(at), after.modes@[at].mode@);
        assert forall|k: Seq<char>| after@.dom().contains(k) <==> target.dom().contains(k) by {
            if after.spec_has_key(k) {
                let i = after.spec_position(k);
                assert(before.key_at(i) == k);
            }
            if before.spec_has_key(k) {
                let i = before.spec_position(k);
                assert(after.key_at(i) == k);
            }
            if k == before.key_at(at) {
                assert(after.key_at(at) == k);
            }
        }
        assert forall|k: Seq<char>| after@.dom().contains(k) implies #[trigger] after@[k]
            == target[k] by {
            assert(after.spec_has_key(k));
            let i = after.spec_position(k);
            assert(after.key_at(i) == k);
            after.lemma_entry(i);
            assert(before.key_at(i) == k);
            before.lemma_entry(i);
            if i != at {
                assert(after.modes@[i].mode == before.modes@[i].mode);
                if before.key_at(i) == before.key_at(at) {
                    before.lemma_keys_differ(i, at);
                }
            }
        }
        assert(after@ =~= target);
    }

    /// Putting an entry between the keys before its own and the keys after its
    /// own is an insertion into the view.
    pub proof fn lemma_inserted(
        before: ParsedWorkMode,
        after: ParsedWorkMode,
        at: int,
        entry: ModeEntry,
    )
        requires
            before.wf(),
            0 <= at <= before.modes@.len(),
            after.modes@ == before.modes@.insert(at, entry),
            forall|j: int| 0 <= j < at ==> text_lt(#[trigger] before.key_at(j), entry.key@),
            forall|j: int|
                at <= j < before.modes@.len() ==> text_lt(entry.key@, #[trigger] before.key_at(j)),
        ensures
            after.wf(),
            after@ == before@.insert(entry.key@, entry.mode@),
    {
        assert forall|i: int| 0 <= i < after.modes@.len() implies #[trigger] after.key_at(i) == (if i
            < at {
            before.key_at(i)
        } else if i == at {
            entry.key@
        } else {
            before.key_at(i - 1)
        }) by {}
        assert forall|i: int, j: int| 0 <= i < j < after.modes@.len() implies #[trigger] text_lt(
            after.key_at(i),
            after.key_at(j),
        ) by {
            let oi = if i < at { i } else { i - 1 };
            let oj = if j < at { j } else { j - 1 };
            if i != at && j != at {
                assert(text_lt(before.key_at(oi), before.key_at(oj)));
            } else if i == at {
                assert(text_lt(entry.key@, before.key_at(oj)));
            } else {
                assert(text_lt(before.key_at(oi), entry.key@));
            }
        }
        let target = before@.insert(entry.key@, entry.mode@);
        assert forall|k: Seq<char>| after@.dom().contains(k) <==> target.dom().contains(k) by {
            if after.spec_has_key(k) {
                let i = after.spec_position(k);
                if i != at {
                    let oi = if i < at { i } else { i - 1 };
                    assert(before.key_at(oi) == k);
                }
            }
            if before.spec_has_key(k) {
                let o = before.spec_position(k);
                let n = if o < at { o } else { o + 1 };
                assert(after.key_at(n) == k);
            }
            if k == entry.key@ {
                assert(after.key_at(at) == k);
            }
        }
        assert forall|k: Seq<char>| after@.dom().contains(k) implies #[trigger] after@[k]
            == target[k] by {
            assert(after.spec_has_key(k));
            let i = after.spec_position(k);
            assert(after.key_at(i) == k);
            after.lemma_entry(i);
            if i != at {
                let oi = if i < at { i } else { i - 1 };
                assert(after.modes@[i] == before.modes@[oi]);
                assert(before.key_at(oi) == k);
                before.lemma_entry(oi);
                lemma_text_order_exclusive(before.key_at(oi), entry.key@);
                lemma_text_order_exclusive(entry.key@, before.key_at(oi));
                assert(k != entry.key@);
            } else {
                assert(after.modes@[at] == entry);
            }
        }
        assert(after@ =~= target);
    }

    /// A position that has only smaller keys before it, and holds a greater
    /// key or none, shows that `key` is not held.
    proof fn lemma_not_held(&self, key: Seq<char>, at: int)
        requires
            self.wf(),
            0 <= at <= self.modes@.len(),
            forall|j: int| 0 <= j < at ==> text_lt(#[trigger] self.key_at(j), key),
            at < self.modes@.len() ==> text_lt(key, self.key_at(at)),
        ensures
            !self.spec_has_key(key),
            forall|j: int| at <= j < self.modes@.len() ==> text_lt(key, #[trigger] self.key_at(j)),
    {
        assert forall|j: int| at <= j < self.modes@.len() implies text_lt(
            key,
            #[trigger] self.key_at(j),
        ) by {
            if j > at {
                assert(text_lt(self.key_at(at), self.key_at(j)));
                lemma_text_lt_transitive(key, self.key_at(at), self.key_at(j));
            }
        }
        assert forall|j: int| 0 <= j < self.modes@.len() implies #[trigger] self.key_at(j)
            != key by {
            lemma_text_order_exclusive(self.key_at(j), key);
            lemma_text_order_exclusive(key, self.key_at(j));
        }
    }

    /// An empty collection.
    pub fn new() -> (r: ParsedWorkMode)
        ensures
            r.wf(),
            r.ranges_fit(),
            r@ == Map::<Seq<char>, WorkModeView>::empty(),
            r.modes@.len() == 0,
    {
        let r = ParsedWorkMode { modes: Vec::new() };
        assert(r@ =~= Map::<Seq<char>, WorkModeView>::empty());
        r
    }

    /// Where `key` is held, or where it would have to be put: the first
    /// position whose key is not before `key`.
    fn locate(&self, key: &str) -> (r: (bool, usize))
        requires
            self.wf(),
        ensures
            r.1 <= self.modes@.len(),
            forall|j: int| 0 <= j < r.1 ==> text_lt(#[trigger] self.key_at(j), key@),
            r.0 ==> r.1 < self.modes@.len() && self.key_at(r.1 as int) == key@,
            !r.0 ==> forall|j: int|
                r.1 <= j < self.modes@.len() ==> text_lt(key@, #[trigger] self.key_at(j)),
            r.0 == self.spec_has_key(key@),
            r.0 == self@.dom().contains(key@),
            r.0 ==> self.spec_position(key@) == r.1,
    {
        let mut i: usize = 0;
        while i < self.modes.len()
            invariant
                self.wf(),
                i <= self.modes@.len(),
                forall|j: int| 0 <= j < i ==> text_lt(#[trigger] self.key_at(j), key@),
            decreases self.modes@.len() - i,
        {
            match place(self.modes[i].key.as_str(), key) {
                Place::Before => {
                    i = i + 1;
                },
                Place::Same => {
                    proof {
                        assert(self.key_at(i as int) == key@);
                        self.lemma_entry(i as int);
                    }
                    return (true, i);
                },
                Place::After => {
                    proof {
                        lemma_place_after(self.key_at(i as int), key@);
                        self.lemma_not_held(key@, i as int);
                    }
                    return (false, i);
                },
            }
        }
        proof {
            self.lemma_not_held(key@, i as int);
        }
        (false, i)
    }

    /// Adds a bare mode under its name, in place of any mode held under that
    /// name before.
    pub fn add(&mut self, name: String, value: serde_json::Value)
        requires
            old(self).wf(),
        ensures
            final(self).wf(),
            final(self)@ == old(self)@.insert(name@, WorkModeView::bare(name@, value)),
            old(self).ranges_fit() ==> final(self).ranges_fit(),
    {
        let (found, at) = self.locate(name.as_str());
        let ghost before = *self;
        let entry = ModeEntry { key: name.clone(), mode: WorkMode::new(name, value) };
        let ghost fresh = entry;
        proof {
            lemma_bare_fits(fresh.mode@);
        }
        if found {
            self.modes[at] = entry;
            proof {
                Self::lemma_replaced(before, *self, at as int);
            }
        } else {
            self.modes.insert(at, entry);
            proof {
                Self::lemma_inserted(before, *self, at as int, fresh);
            }
        }
        proof {
            if before.ranges_fit() {
                assert forall|i: int| 0 <= i < self.modes@.len() implies (
                #[trigger] self.modes@[i]).mode@.range_fits() by {
                    if i != at {
                        let oi = if found || i < at { i } else { i - 1 };
                        assert(self.modes@[i].mode == before.modes@[oi].mode);
                    }
                }
            }
        }
    }

    /// The mode held under `mode`, to be changed in place. The collection
    /// afterwards holds, under that key, whatever the caller left there; its
    /// other entries and its keys stay as they were.
    pub fn get_mut(&mut self, mode: &str) -> (r: Option<&mut WorkMode>)
        requires
            old(self).wf(),
        ensures
            match r {
                Some(m) => {
                    &&& old(self)@.dom().contains(mode@)
                    &&& *m == old(self).modes@[old(self).spec_position(mode@)].mode
                    &&& final(self).modes@ == old(self).modes@.update(
                        old(self).spec_position(mode@),
                        (ModeEntry {
                            key: old(self).modes@[old(self).spec_position(mode@)].key,
                            mode: *final(m),
                        }),
                    )
                    &&& final(self).wf()
                    &&& final(self)@ == old(self)@.insert(mode@, (*final(m))@)
                },
                None => !old(self)@.dom().contains(mode@) && *final(self) == *old(self),
            },
    {
        let (found, at) = self.locate(mode);
        if found {
            proof {
                let before = *self;
                assert forall|after: ParsedWorkMode|
                    after.modes@ == before.modes@.update(
                        at as int,
                        ModeEntry {
                            key: before.modes@[at as int].key,
                            mode: after.modes@[at as int].mode,
                        },
                    ) implies #[trigger] after.wf() && after@ == before@.insert(
                    mode@,
                    after.modes@[at as int].mode@,
                ) by {
                    Self::lemma_replaced(before, after, at as int);
                }
            }
            Some(&mut self.modes[at].mode)
        } else {
            None
        }
    }

    /// The mode held under `name`.
    pub fn mode_by_name(&self, name: &str) -> (r: Option<&WorkMode>)
        requires
            self.wf(),
        ensures
            match r {
                Some(m) => self@.dom().contains(name@) && m@ == self@[name@],
                None => !self@.dom().contains(name@),
            },
    {
        let (found, at) = self.locate(name);
        if found {
            proof {
                self.lemma_entry(at as int);
            }
            Some(&self.modes[at].mode)
        } else {
            None
        }
    }

    /// Declares a bare mode for each option, in turn.
    fn declare(&mut self, options: &Vec<EnumOption>)
        requires
            old(self).wf(),
            old(self).ranges_fit(),
        ensures
            final(self).wf(),
            final(self).ranges_fit(),
            final(self)@ == declared(old(self)@, options@, options@.len() as int),
    {
        let mut i: usize = 0;
        while i < options.len()
            invariant
                i <= options@.len(),
                self.wf(),
                self.ranges_fit(),
                self@ == declared(old(self)@, options@, i as int),
            decreases options@.len() - i,
        {
            self.add(options[i].name.clone(), options[i].value.clone());
            i = i + 1;
        }
    }

    /// Attaches the extension data of each option to the mode of its name, in
    /// turn; an option that names no mode is passed over.
    fn attach(&mut self, options: &Vec<EnumOption>)
        requires
            old(self).wf(),
            old(self).ranges_fit(),
            can_attach(old(self)@, options@, options@.len() as int),
        ensures
            final(self).wf(),
            final(self).ranges_fit(),
            final(self)@ == attached(old(self)@, options@, options@.len() as int),
    {
        let mut i: usize = 0;
        while i < options.len()
            invariant
                i <= options@.len(),
                self.wf(),
                self.ranges_fit(),
                can_attach(old(self)@, options@, options@.len() as int),
                self@ == attached(old(self)@, options@, i as int),
            decreases options@.len() - i,
        {
            proof {
                lemma_can_attach_prefix(old(self)@, options@, options@.len() as int, i + 1);
            }
            let ghost before = *self;
            let ghost at = before.spec_position(options@[i as int].name@);
            if let Some(work_mode) = self.get_mut(options[i].name.as_str()) {
                proof {
                    before.lemma_entry(at);
                }
                work_mode.add_values(&options[i]);
            }
            proof {
                if before@.dom().contains(options@[i as int].name@) {
                    assert forall|k: int| 0 <= k < self.modes@.len() implies (
                    #[trigger] self.modes@[k]).mode@.range_fits() by {
                        if k != at {
                            assert(self.modes@[k] == before.modes@[k]);
                        }
                    }
                }
            }
            i = i + 1;
        }
    }

    /// Reads the modes of a device from the `workMode` capability of its cloud
    /// descriptor, and applies the label overrides for the device's model.
    /// Fails where the device has no descriptor, the descriptor no such
    /// capability, or the capability no `workMode` field.
    ///
    /// The ranges of the capability must fit in `i64`; `try_with_device` tests
    /// that itself.
    pub fn with_device(device: &Device) -> (r: Result<ParsedWorkMode, WorkModeError>)
        requires
            can_parse_device(*device),
        ensures
            match r {
                Ok(parsed) => parsed.wf() && parsed.ranges_fit() && device_modes(*device) == Ok::<
                    Map<Seq<char>, WorkModeView>,
                    WorkModeError,
                >(parsed@),
                Err(e) => device_modes(*device) == Err::<Map<Seq<char>, WorkModeView>, WorkModeError>(
                    e,
                ),
            },
    {
        let info = match &device.http_device_info {
            Some(info) => info,
            None => {
                return Err(WorkModeError::NoPlatformState);
            },
        };
        let cap = match info.capability_by_instance("workMode") {
            Some(cap) => cap,
            None => {
                return Err(WorkModeError::NoWorkModeCapability);
            },
        };
        let mut parsed = match ParsedWorkMode::with_capability(cap) {
            Ok(parsed) => parsed,
            Err(e) => {
                return Err(e);
            },
        };
        parsed.adjust_for_device(device.sku.as_str());
        Ok(parsed)
    }

    /// Reads the modes of a work-mode capability: one bare mode for each
    /// option of its `workMode` field, then the extension data of each option
    /// of its `modeValue` field attached to the mode of the same name. Fails
    /// where the capability has no `workMode` field.
    ///
    /// The ranges of the capability must fit in `i64`; `try_with_capability`
    /// tests that itself.
    pub fn with_capability(cap: &DeviceCapability) -> (r: Result<ParsedWorkMode, WorkModeError>)
        requires
            can_parse(*cap),
        ensures
            match r {
                Ok(parsed) => parsed.wf() && parsed.ranges_fit() && parsed_modes(*cap) == Some(
                    parsed@,
                ),
                Err(e) => e == WorkModeError::WorkModeFieldMissing && parsed_modes(*cap) is None,
            },
    {
        let mut work_modes = ParsedWorkMode::new();
        let wm = match cap.struct_field_by_name("workMode") {
            Some(field) => field,
            None => {
                return Err(WorkModeError::WorkModeFieldMissing);
            },
        };
        match &wm.field_type {
            DeviceParameters::Enum { options } => {
                work_modes.declare(options);
            },
            _ => {},
        }
        if let Some(mv) = cap.struct_field_by_name("modeValue") {
            match &mv.field_type {
                DeviceParameters::Enum { options } => {
                    work_modes.attach(options);
                },
                _ => {},
            }
        }
        Ok(work_modes)
    }

    /// Attaches the extension data of each option as `attach` does, so long
    /// as that stays within `i64`, and says whether it did throughout.
    fn try_attach(&mut self, options: &Vec<EnumOption>) -> (r: bool)
        requires
            old(self).wf(),
            old(self).ranges_fit(),
        ensures
            r == can_attach(old(self)@, options@, options@.len() as int),
            r ==> final(self).wf() && final(self).ranges_fit() && final(self)@ == attached(
                old(self)@,
                options@,
                options@.len() as int,
            ),
    {
        let mut i: usize = 0;
        while i < options.len()
            invariant
                i <= options@.len(),
                self.wf(),
                self.ranges_fit(),
                can_attach(old(self)@, options@, i as int),
                self@ == attached(old(self)@, options@, i as int),
            decreases options@.len() - i,
        {
            let ghost before = *self;
            let ghost at = before.spec_position(options@[i as int].name@);
            let mut fits = true;
            if let Some(work_mode) = self.get_mut(options[i].name.as_str()) {
                proof {
                    before.lemma_entry(at);
                }
                fits = work_mode.try_add_values(&options[i]);
            }
            if !fits {
                proof {
                    if can_attach(old(self)@, options@, options@.len() as int) {
                        lemma_can_attach_prefix(
                            old(self)@,
                            options@,
                            options@.len() as int,
                            i + 1,
                        );
                    }
                }
                return false;
            }
            proof {
                if before@.dom().contains(options@[i as int].name@) {
                    assert forall|k: int| 0 <= k < self.modes@.len() implies (
                    #[trigger] self.modes@[k]).mode@.range_fits() by {
                        if k != at {
                            assert(self.modes@[k] == before.modes@[k]);
                        }
                    }
                }
            }
            i = i + 1;
        }
        true
    }

    /// Reads the modes of a capability as `with_capability` does, where that
    /// stays within `i64`; `None` where a range that the capability declares
    /// or implies would end beyond `i64::MAX`.
    pub fn try_with_capability(cap: &DeviceCapability) -> (r: Option<
        Result<ParsedWorkMode, WorkModeError>,
    >)
        ensures
            r is Some == can_parse(*cap),
            match r {
                Some(Ok(parsed)) => parsed.wf() && parsed.ranges_fit() && parsed_modes(*cap)
                    == Some(parsed@),
                Some(Err(e)) => e == WorkModeError::WorkModeFieldMissing && parsed_modes(*cap) is None,
                None => true,
            },
    {
        let mut work_modes = ParsedWorkMode::new();
        let wm = match cap.struct_field_by_name("workMode") {
            Some(field) => field,
            None => {
                return Some(Err(WorkModeError::WorkModeFieldMissing));
            },
        };
        match &wm.field_type {
            DeviceParameters::Enum { options } => {
                work_modes.declare(options);
            },
            _ => {},
        }
        if let Some(mv) = cap.struct_field_by_name("modeValue") {
            match &mv.field_type {
                DeviceParameters::Enum { options } => {
                    if !work_modes.try_attach(options) {
                        return None;
                    }
                },
                _ => {},
            }
        }
        Some(Ok(work_modes))
    }

    /// Reads the modes of a device as `with_device` does, where that stays
    /// within `i64`; `None` where a range that its capability declares or
    /// implies would end beyond `i64::MAX`.
    pub fn try_with_device(device: &Device) -> (r: Option<Result<ParsedWorkMode, WorkModeError>>)
        ensures
            r is Some == can_parse_device(*device),
            match r {
                Some(Ok(parsed)) => parsed.wf() && parsed.ranges_fit() && device_modes(*device)
                    == Ok::<Map<Seq<char>, WorkModeView>, WorkModeError>(parsed@),
                Some(Err(e)) => device_modes(*device) == Err::<
                    Map<Seq<char>, WorkModeView>,
                    WorkModeError,
                >(e),
                None => true,
            },
    {
        let info = match &device.http_device_info {
            Some(info) => info,
            None => {
                return Some(Err(WorkModeError::NoPlatformState));
            },
        };
        let cap = match info.capability_by_instance("workMode") {
            Some(cap) => cap,
            None => {
                return Some(Err(WorkModeError::NoWorkModeCapability));
            },
        };
        match ParsedWorkMode::try_with_capability(cap) {
            Some(Ok(parsed)) => {
                let mut parsed = parsed;
                parsed.adjust_for_device(device.sku.as_str());
                Some(Ok(parsed))
            },
            Some(Err(e)) => Some(Err(e)),
            None => None,
        }
    }

    /// Applies the label overrides that are known for the device model `sku`.
    /// A model in the table has the one mode that its row names relabelled,
    /// if it has that mode; for every other model each mode is labelled with
    /// its own name.
    pub fn adjust_for_device(&mut self, sku: &str)
        requires
            old(self).wf(),
        ensures
            final(self).wf(),
            final(self).keys() == old(self).keys(),
            final(self)@ == adjusted(old(self)@, sku@),
            old(self).ranges_fit() ==> final(self).ranges_fit(),
    {
        match label_override_for(sku) {
            Some((key, label)) => {
                let ghost before = *self;
                let ghost at = before.spec_position(key@);
                if let Some(m) = self.get_mut(key) {
                    m.label = String::from_str(label);
                }
                proof {
                    if before@.dom().contains(key@) {
                        before.lemma_entry(at);
                        assert(self@[key@].values == before@[key@].values);
                        assert(self.keys() =~= before.keys());
                        assert(self@ =~= adjusted(before@, sku@));
                        if before.ranges_fit() {
                            assert forall|k: int| 0 <= k < self.modes@.len() implies (
                            #[trigger] self.modes@[k]).mode@.range_fits() by {
                                if k != at {
                                    assert(self.modes@[k] == before.modes@[k]);
                                } else {
                                    assert(before.modes@[k].mode@.range_fits());
                                }
                            }
                        }
                    }
                }
            },
            None => {
                let ghost before = *self;
                let mut i: usize = 0;
                while i < self.modes.len()
                    invariant
                        i <= self.modes@.len(),
                        self.modes@.len() == before.modes@.len(),
                        forall|k: int|
                            0 <= k < self.modes@.len() ==> #[trigger] self.key_at(k)
                                == before.key_at(k),
                        forall|k: int|
                            0 <= k < i ==> (#[trigger] self.modes@[k]).mode@ == named(
                                before.modes@[k].mode@,
                            ),
                        forall|k: int|
                            i <= k < self.modes@.len() ==> (#[trigger] self.modes@[k]).mode
                                == before.modes@[k].mode,
                    decreases self.modes@.len() - i,
                {
                    let ghost held = *self;
                    let name = self.modes[i].mode.name.clone();
                    self.modes[i].mode.label = name;
                    proof {
                        assert forall|k: int| 0 <= k < self.modes@.len() implies #[trigger] self.key_at(
                            k,
                        ) == before.key_at(k) by {
                            assert(self.modes@[k].key == held.modes@[k].key);
                            assert(held.key_at(k) == before.key_at(k));
                        }
                    }
                    i = i + 1;
                }
                proof {
                    Self::lemma_all_named(before, *self, sku@);
                }
            },
        }
    }

    /// Giving every mode its own name as label is `adjusted` for a model
    /// without a row in the table.
    proof fn lemma_all_named(before: ParsedWorkMode, after: ParsedWorkMode, sku: Seq<char>)
        requires
            before.wf(),
            label_override(sku) is None,
            after.modes@.len() == before.modes@.len(),
            forall|k: int|
                0 <= k < after.modes@.len() ==> #[trigger] after.key_at(k) == before.key_at(k),
            forall|k: int|
                0 <= k < after.modes@.len() ==> (#[trigger] after.modes@[k]).mode@ == named(
                    before.modes@[k].mode@,
                ),
        ensures
            after.wf(),
            after.keys() == before.keys(),
            after@ == adjusted(before@, sku),
            before.ranges_fit() ==> after.ranges_fit(),
    {
        assert forall|i: int, j: int| 0 <= i < j < after.modes@.len() implies #[trigger] text_lt(
            after.key_at(i),
            after.key_at(j),
        ) by {
            assert(text_lt(before.key_at(i), before.key_at(j)));
        }
        assert(after.keys() =~= before.keys()) by {
            assert forall|k: int| 0 <= k < after.modes@.len() implies after.keys()[k]
                == before.keys()[k] by {
                assert(after.key_at(k) == before.key_at(k));
            }
        }
        let target = adjusted(before@, sku);
        assert forall|k: Seq<char>| after@.dom().contains(k) <==> target.dom().contains(k) by {
            if after.spec_has_key(k) {
                let i = after.spec_position(k);
                assert(before.key_at(i) == k);
            }
            if before.spec_has_key(k) {
                let i = before.spec_position(k);
                assert(after.key_at(i) == k);
            }
        }
        assert forall|k: Seq<char>| after@.dom().contains(k) implies #[trigger] after@[k]
            == target[k] by {
            assert(after.spec_has_key(k));
            let i = after.spec_position(k);
            assert(after.key_at(i) == k);
            after.lemma_entry(i);
            assert(before.key_at(i) == k);
            before.lemma_entry(i);
        }
        assert(after@ =~= target);
        if before.ranges_fit() {
            assert forall|k: int| 0 <= k < after.modes@.len() implies (
            #[trigger] after.modes@[k]).mode@.range_fits() by {
                assert(before.modes@[k].mode@.range_fits());
            }
        }
    }

    /// The first mode, in the order of the keys, whose selector value is
    /// `value`.
    pub fn mode_for_value(&self, value: &serde_json::Value) -> (r: Option<&WorkMode>)
        ensures
            match r {
                Some(m) => first_where(
                    self.in_order(),
                    |w: WorkModeView| json_same(w.value, *value),
                    0,
                ) matches Some(i) && *m == self.modes@[i].mode,
                None => first_where(
                    self.in_order(),
                    |w: WorkModeView| json_same(w.value, *value),
                    0,
                ) is None,
            },
    {
        let ghost wanted = |w: WorkModeView| json_same(w.value, *value);
        let mut i: usize = 0;
        while i < self.modes.len()
            invariant
                i <= self.modes@.len(),
                wanted == |w: WorkModeView| json_same(w.value, *value),
                first_where(self.in_order(), wanted, 0) == first_where(
                    self.in_order(),
                    wanted,
                    i as int,
                ),
            decreases self.modes@.len() - i,
        {
            if self.modes[i].mode.value == *value {
                return Some(&self.modes[i].mode);
            }
            i = i + 1;
        }
        None
    }

    /// The first mode, in the order of the keys, whose display label is
    /// `name`.
    pub fn mode_by_label(&self, name: &str) -> (r: Option<&WorkMode>)
        ensures
            match r {
                Some(m) => first_where(
                    self.in_order(),
                    |w: WorkModeView| w.display_label() == name@,
                    0,
                ) matches Some(i) && *m == self.modes@[i].mode,
                None => first_where(
                    self.in_order(),
                    |w: WorkModeView| w.display_label() == name@,
                    0,
                ) is None,
            },
    {
        let ghost wanted = |w: WorkModeView| w.display_label() == name@;
        let mut i: usize = 0;
        while i < self.modes.len()
            invariant
                i <= self.modes@.len(),
                wanted == |w: WorkModeView| w.display_label() == name@,
                first_where(self.in_order(), wanted, 0) == first_where(
                    self.in_order(),
                    wanted,
                    i as int,
                ),
            decreases self.modes@.len() - i,
        {
            if same_text(self.modes[i].mode.label(), name) {
                return Some(&self.modes[i].mode);
            }
            i = i + 1;
        }
        None
    }

    /// The names of the modes, sorted.
    pub fn get_mode_names(&self) -> (r: Vec<String>)
        ensures
            texts_ascending(texts_of(r@)),
            texts_of(r@).to_multiset() == self.in_order().map_values(
                |w: WorkModeView| w.name,
            ).to_multiset(),
    {
        let mut names: Vec<String> = Vec::new();
        let mut i: usize = 0;
        while i < self.modes.len()
            invariant
                i <= self.modes@.len(),
                names@.len() == i,
                forall|k: int| 0 <= k < i ==> (#[trigger] names@[k])@ == self.modes@[k].mode.name@,
            decreases self.modes@.len() - i,
        {
            names.push(self.modes[i].mode.name.clone());
            i = i + 1;
        }
        assert(texts_of(names@) =~= self.in_order().map_values(|w: WorkModeView| w.name));
        sort_texts(&mut names);
        names
    }

    /// The display labels of the modes, sorted.
    pub fn get_mode_labels(&self) -> (r: Vec<String>)
        ensures
            texts_ascending(texts_of(r@)),
            texts_of(r@).to_multiset() == self.in_order().map_values(
                |w: WorkModeView| w.display_label(),
            ).to_multiset(),
    {
        let mut names: Vec<String> = Vec::new();
        let mut i: usize = 0;
        while i < self.modes.len()
            invariant
                i <= self.modes@.len(),
                names@.len() == i,
                forall|k: int|
                    0 <= k < i ==> (#[trigger] names@[k])@
                        == self.modes@[k].mode@.display_label(),
            decreases self.modes@.len() - i,
        {
            names.push(String::from_str(self.modes[i].mode.label()));
            i = i + 1;
        }
        assert(texts_of(names@) =~= self.in_order().map_values(
            |w: WorkModeView| w.display_label(),
        ));
        sort_texts(&mut names);
        names
    }

    /// The modes that have discrete values, in the order of the keys.
    pub fn modes_with_values(&self) -> (r: Vec<&WorkMode>)
        ensures
            r@.map_values(|m: &WorkMode| m@) == self.in_order().filter(
                |w: WorkModeView| w.values.len() > 0,
            ),
    {
        let ghost wanted = |w: WorkModeView| w.values.len() > 0;
        let mut picked: Vec<&WorkMode> = Vec::new();
        let mut i: usize = 0;
        proof {
            reveal(Seq::filter);
            assert(self.in_order().take(0) =~= Seq::empty());
            assert(picked@.map_values(|m: &WorkMode| m@) =~= self.in_order().take(0).filter(
                wanted,
            ));
        }
        while i < self.modes.len()
            invariant
                i <= self.modes@.len(),
                wanted == |w: WorkModeView| w.values.len() > 0,
                picked@.map_values(|m: &WorkMode| m@) == self.in_order().take(i as int).filter(
                    wanted,
                ),
            decreases self.modes@.len() - i,
        {
            let ghost held = picked@.map_values(|m: &WorkMode| m@);
            proof {
                reveal(Seq::filter);
                assert(self.in_order().take(i + 1).drop_last() =~= self.in_order().take(i as int));
                assert(self.in_order().take(i + 1).last() == self.modes@[i as int].mode@);
            }
            if !self.modes[i].mode.values.is_empty() {
                picked.push(&self.modes[i].mode);
                assert(picked@.map_values(|m: &WorkMode| m@) =~= held.push(
                    self.modes@[i as int].mode@,
                ));
            }
            i = i + 1;
        }
        assert(self.in_order().take(i as int) =~= self.in_order());
        picked
    }
}

impl Default for ParsedWorkMode {
    fn default() -> (r: ParsedWorkMode)
        ensures
            r.wf(),
            r@ == Map::<Seq<char>, WorkModeView>::empty(),
    {
        ParsedWorkMode::new()
    }
}

} // verus!
