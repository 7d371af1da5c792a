//! The capability schema that the vendor's cloud API declares for a device: a
//! tree of struct fields and enum options, whose options may carry a numeric
//! range or a list of sub-options as extension data.

use crate::text::same_text;
use vstd::prelude::*;

verus! {

/// The kind tag of a capability.
#[derive(Clone, Copy, Debug, PartialEq, Eq, Structural)]
pub enum DeviceCapabilityKind {
    OnOff,
    Toggle,
    Range,
    Mode,
    ColorSetting,
    SegmentColorSetting,
    MusicSetting,
    DynamicScene,
    WorkMode,
    DynamicSetting,
    TemperatureSetting,
    Online,
    Property,
    Event,
    Other,
}

/// The extension shape `{"min": .., "max": ..}`: both bounds belong to the
/// range.
#[derive(Clone, Copy, Debug, PartialEq, Eq, Structural)]
pub struct ModeRange {
    pub min: i64,
    pub max: i64,
}

/// One entry of the extension shape `[{"name"?: .., "value": ..}, ..]`.
#[derive(Debug)]
pub struct ModeOption {
    pub name: Option<String>,
    pub value: serde_json::Value,
}

/// A `ModeOption` with its name as text.
pub struct ModeOptionView {
    pub name: Option<Seq<char>>,
    pub value: serde_json::Value,
}

impl View for ModeOption {
    type V = ModeOptionView;

    open spec fn view(&self) -> ModeOptionView {
        ModeOptionView {
            name: match self.name {
                Some(n) => Some(n@),
                None => None,
            },
            value: self.value,
        }
    }
}

/// The extension data of an enum option, read under the two shapes that the
/// library knows. `range` is the entry `range` where it has the shape of a
/// `ModeRange`, `options` the entry `options` where it is a list of
/// `ModeOption`; an entry that is missing or has another shape is `None`.
#[derive(Debug)]
pub struct OptionExtras {
    pub range: Option<ModeRange>,
    pub options: Option<Vec<ModeOption>>,
}

/// `OptionExtras` with its options as a sequence of views.
pub struct OptionExtrasView {
    pub range: Option<ModeRange>,
    pub options: Option<Seq<ModeOptionView>>,
}

impl View for OptionExtras {
    type V = OptionExtrasView;

    open spec fn view(&self) -> OptionExtrasView {
        OptionExtrasView {
            range: self.range,
            options: match self.options {
                Some(o) => Some(o@.map_values(|m: ModeOption| m@)),
                None => None,
            },
        }
    }
}

impl OptionExtras {
    /// Extension data of neither shape.
    pub fn unknown() -> (r: OptionExtras)
        ensures
            r.range is None,
            r.options is None,
    {
        OptionExtras { range: None, options: None }
    }
}

/// One option of an enum parameter.
#[derive(Debug)]
pub struct EnumOption {
    pub name: String,
    pub value: serde_json::Value,
    pub extras: OptionExtras,
}

/// A node of a capability's parameter tree.
#[derive(Debug)]
pub enum DeviceParameters {
    Struct { fields: Vec<StructField> },
    Enum { options: Vec<EnumOption> },
}

/// One named field of a struct parameter.
#[derive(Debug)]
pub struct StructField {
    pub field_name: String,
    pub field_type: DeviceParameters,
    pub default_value: Option<serde_json::Value>,
    pub required: bool,
}

/// One controllable aspect of a device, as the vendor declares it.
#[derive(Debug)]
pub struct DeviceCapability {
    pub kind: DeviceCapabilityKind,
    pub instance: String,
    pub parameters: Option<DeviceParameters>,
}

/// The first of `fields` from position `from` on that is named `name`.
pub open spec fn first_field_named(fields: Seq<StructField>, name: Seq<char>, from: int) -> Option<
    StructField,
>
    decreases fields.len() - from,
{
    if from < 0 || from >= fields.len() {
        None
    } else if fields[from].field_name@ == name {
        Some(fields[from])
    } else {
        first_field_named(fields, name, from + 1)
    }
}

/// The first of `caps` from position `from` on whose instance is `instance`.
pub open spec fn first_capability_of(
    caps: Seq<DeviceCapability>,
    instance: Seq<char>,
    from: int,
) -> Option<DeviceCapability>
    decreases caps.len() - from,
{
    if from < 0 || from >= caps.len() {
        None
    } else if caps[from].instance@ == instance {
        Some(caps[from])
    } else {
        first_capability_of(caps, instance, from + 1)
    }
}

impl DeviceParameters {
    /// The options of an enum node; a struct node has none.
    pub open spec fn spec_options(self) -> Seq<EnumOption> {
        match self {
            DeviceParameters::Enum { options } => options@,
            DeviceParameters::Struct { .. } => Seq::empty(),
        }
    }
}

impl DeviceCapability {
    /// The field that `struct_field_by_name` finds.
    pub open spec fn spec_struct_field_by_name(self, name: Seq<char>) -> Option<StructField> {
        match self.parameters {
            Some(DeviceParameters::Struct { fields }) => first_field_named(fields@, name, 0),
            _ => None,
        }
    }

    /// The first field called `name` of a capability whose parameters are a
    /// struct; `None` where there is no such field or the parameters are
    /// missing or no struct.
    pub fn struct_field_by_name(&self, name: &str) -> (r: Option<&StructField>)
        ensures
            match r {
                Some(f) => self.spec_struct_field_by_name(name@) == Some(*f),
                None => self.spec_struct_field_by_name(name@) is None,
            },
    {
        match &self.parameters {
            Some(DeviceParameters::Struct { fields }) => field_by_name(fields, name),
            _ => None,
        }
    }
}

/// Finds the first field with the given name.
pub fn field_by_name<'a>(fields: &'a Vec<StructField>, name: &str) -> (r: Option<&'a StructField>)
    ensures
        match r {
            Some(f) => first_field_named(fields@, name@, 0) == Some(*f),
            None => first_field_named(fields@, name@, 0) is None,
        },
{
    let mut i: usize = 0;
    while i < fields.len()
        invariant
            i <= fields@.len(),
            first_field_named(fields@, name@, 0) == first_field_named(fields@, name@, i as int),
        decreases fields@.len() - i,
    {
        if same_text(fields[i].field_name.as_str(), name) {
            return Some(&fields[i]);
        }
        i = i + 1;
    }
    None
}

/// Finds the first capability with the given instance name.
pub fn capability_by_instance<'a>(caps: &'a Vec<DeviceCapability>, instance: &str) -> (r: Option<
    &'a DeviceCapability,
>)
    ensures
        match r {
            Some(c) => first_capability_of(caps@, instance@, 0) == Some(*c),
            None => first_capability_of(caps@, instance@, 0) is None,
        },
{
    let mut i: usize = 0;
    while i < caps.len()
        invariant
            i <= caps@.len(),
            first_capability_of(caps@, instance@, 0) == first_capability_of(
                caps@,
                instance@,
                i as int,
            ),
        decreases caps@.len() - i,
    {
        if same_text(caps[i].instance.as_str(), instance) {
            return Some(&caps[i]);
        }
        i = i + 1;
    }
    None
}

} // verus!
