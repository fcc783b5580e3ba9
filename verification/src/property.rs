//! The state keys that a device can be asked for and reports changes of.

use vstd::prelude::*;

verus! {

/// Properties of a device.
#[derive(Clone, Copy, PartialEq, Eq, Debug, Hash)]
pub enum Property {
    /// The power state of the device.
    /// on: smart LED is turned on / off: smart LED is turned off
    Power,
    /// Brightness percentage. Range 1 ~ 100
    Bright,
    /// Color temperature. Range 1700 ~ 6500(k)
    Ct,
    /// RGB Color of the device.
    /// Color. Range 1 ~ 16777215
    Rgb,
    /// Hue. Range 0 ~ 359
    Hue,
    /// Saturation. Range 0 ~ 100
    Sat,
    /// Color Mode of the device.
    /// 1: rgb mode / 2: color temperature mode / 3: hsv mode
    ColorMode,
    /// Color flow
    /// 0: no flow is running / 1:color flow is running
    Flowing,
    /// The remaining time of a sleep timer. Range 1 ~ 60 (minutes)
    DelayOff,
    /// Current flow parameters (only meaningful when [Property::Flowing] is 1)
    FlowParams,
    /// 1: Music mode is on / 0: Music mode is off
    MusicOn,
    /// The name of the device set by the "set_name" command
    Name,
    /// Background light power status
    BgPower,
    /// Background light is flowing
    BgFlowing,
    /// Current flow parameters of background light
    BgFlowParams,
    /// Color temperature of background light
    BgCt,
    /// 1: rgb mode / 2: color temperature mode / 3: hsv mode
    BgLmode,
    /// Brightness percentage of background light
    BgBright,
    /// Color of background light
    BgRgb,
    /// Hue of background light
    BgHue,
    /// Saturation of background light
    BgSat,
    /// Brightness of night mode light
    NlBr,
    /// 0: daylight mode / 1: moonlight mode (ceiling light only)
    ActiveMode,
}

/// Whether two strings hold the same text.
pub fn same_text(left: &str, right: &str) -> (same: bool)
    ensures
        same == (left@ == right@),
{
    let left = left.to_owned();
    let right = right.to_owned();
    left == right
}

impl Property {
    /// The name of the property on the wire.
    pub open spec fn wire_name(self) -> Seq<char> {
        match self {
            Property::Power => "power"@,
            Property::Bright => "bright"@,
            Property::Ct => "ct"@,
            Property::Rgb => "rgb"@,
            Property::Hue => "hue"@,
            Property::Sat => "sat"@,
            Property::ColorMode => "color_mode"@,
            Property::Flowing => "flowing"@,
            Property::DelayOff => "delay_off"@,
            Property::FlowParams => "flow_params"@,
            Property::MusicOn => "music_on"@,
            Property::Name => "name"@,
            Property::BgPower => "bg_power"@,
            Property::BgFlowing => "bg_flowing"@,
            Property::BgFlowParams => "bg_flow_params"@,
            Property::BgCt => "bg_ct"@,
            Property::BgLmode => "bg_lmode"@,
            Property::BgBright => "bg_bright"@,
            Property::BgRgb => "bg_rgb"@,
            Property::BgHue => "bg_hue"@,
            Property::BgSat => "bg_sat"@,
            Property::NlBr => "nl_br"@,
            Property::ActiveMode => "active_mode"@,
        }
    }

    /// The name of the property on the wire.
    pub fn name(&self) -> (name: &'static str)
        ensures
            name@ == self.wire_name(),
    {
        match self {
            Property::Power => "power",
            Property::Bright => "bright",
            Property::Ct => "ct",
            Property::Rgb => "rgb",
            Property::Hue => "hue",
            Property::Sat => "sat",
            Property::ColorMode => "color_mode",
            Property::Flowing => "flowing",
            Property::DelayOff => "delay_off",
            Property::FlowParams => "flow_params",
            Property::MusicOn => "music_on",
            Property::Name => "name",
            Property::BgPower => "bg_power",
            Property::BgFlowing => "bg_flowing",
            Property::BgFlowParams => "bg_flow_params",
            Property::BgCt => "bg_ct",
            Property::BgLmode => "bg_lmode",
            Property::BgBright => "bg_bright",
            Property::BgRgb => "bg_rgb",
            Property::BgHue => "bg_hue",
            Property::BgSat => "bg_sat",
            Property::NlBr => "nl_br",
            Property::ActiveMode => "active_mode",
        }
    }

    /// Every property, in the order of their declaration.
    pub open spec fn every() -> Seq<Property> {
        seq![
            Property::Power,
            Property::Bright,
            Property::Ct,
            Property::Rgb,
            Property::Hue,
            Property::Sat,
            Property::ColorMode,
            Property::Flowing,
            Property::DelayOff,
            Property::FlowParams,
            Property::MusicOn,
            Property::Name,
            Property::BgPower,
            Property::BgFlowing,
            Property::BgFlowParams,
            Property::BgCt,
            Property::BgLmode,
            Property::BgBright,
            Property::BgRgb,
            Property::BgHue,
            Property::BgSat,
            Property::NlBr,
            Property::ActiveMode,
        ]
    }

    /// The place of the property in the order of their declaration.
    pub open spec fn place(self) -> int {
        match self {
            Property::Power => 0,
            Property::Bright => 1,
            Property::Ct => 2,
            Property::Rgb => 3,
            Property::Hue => 4,
            Property::Sat => 5,
            Property::ColorMode => 6,
            Property::Flowing => 7,
            Property::DelayOff => 8,
            Property::FlowParams => 9,
            Property::MusicOn => 10,
            Property::Name => 11,
            Property::BgPower => 12,
            Property::BgFlowing => 13,
            Property::BgFlowParams => 14,
            Property::BgCt => 15,
            Property::BgLmode => 16,
            Property::BgBright => 17,
            Property::BgRgb => 18,
            Property::BgHue => 19,
            Property::BgSat => 20,
            Property::NlBr => 21,
            Property::ActiveMode => 22,
        }
    }

    /// Every property, in the order of their declaration.
    pub fn all() -> (all: Vec<Property>)
        ensures
            all@ == Property::every(),
    {
        let all = vec![
            Property::Power,
            Property::Bright,
            Property::Ct,
            Property::Rgb,
            Property::Hue,
            Property::Sat,
            Property::ColorMode,
            Property::Flowing,
            Property::DelayOff,
            Property::FlowParams,
            Property::MusicOn,
            Property::Name,
            Property::BgPower,
            Property::BgFlowing,
            Property::BgFlowParams,
            Property::BgCt,
            Property::BgLmode,
            Property::BgBright,
            Property::BgRgb,
            Property::BgHue,
            Property::BgSat,
            Property::NlBr,
            Property::ActiveMode,
        ];
        assert(all@ =~= Property::every());
        all
    }

    /// The property that goes by `name` on the wire, if there is one.
    pub open spec fn named(name: Seq<char>) -> Option<Property> {
        if exists|property: Property| property.wire_name() == name {
            Some(choose|property: Property| property.wire_name() == name)
        } else {
            None
        }
    }

    /// The property that goes by `name` on the wire, if there is one.
    pub fn from_name(name: &str) -> (found: Option<Property>)
        ensures
            found == Property::named(name@),
    {
        let all = Property::all();
        let mut i: usize = 0;
        while i < all.len()
            invariant
                i <= all.len(),
                all@ == Property::every(),
                forall|k: int| 0 <= k < i ==> all@[k].wire_name() != name@,
            decreases all.len() - i,
        {
            if same_text(all[i].name(), name) {
                proof {
                    lemma_property_names_distinct(all@[i as int], Property::named(name@)->Some_0);
                }
                return Some(all[i]);
            }
            i += 1;
        }
        assert forall|property: Property| property.wire_name() != name@ by {
            lemma_every_property(property);
            assert(all@[property.place()].wire_name() != name@);
        }
        None
    }
}

/// Each property stands at its place among all of them.
pub proof fn lemma_every_property(property: Property)
    ensures
        0 <= property.place() < Property::every().len(),
        Property::every()[property.place()] == property,
        Property::every().len() == 23,
{
}

/// A property is found again by its wire name, and by no other text.
pub proof fn lemma_property_named(property: Property, name: Seq<char>)
    ensures
        Property::named(name) == Some(property) <==> property.wire_name() == name,
{
    if property.wire_name() == name {
        lemma_property_names_distinct(property, Property::named(name)->Some_0);
    }
}

/// No two properties share a wire name.
pub proof fn lemma_property_names_distinct(left: Property, right: Property)
    requires
        left.wire_name() == right.wire_name(),
    ensures
        left == right,
{
    reveal_strlit("power");
    reveal_strlit("bright");
    reveal_strlit("ct");
    reveal_strlit("rgb");
    reveal_strlit("hue");
    reveal_strlit("sat");
    reveal_strlit("color_mode");
    reveal_strlit("flowing");
    reveal_strlit("delay_off");
    reveal_strlit("flow_params");
    reveal_strlit("music_on");
    reveal_strlit("name");
    reveal_strlit("bg_power");
    reveal_strlit("bg_flowing");
    reveal_strlit("bg_flow_params");
    reveal_strlit("bg_ct");
    reveal_strlit("bg_lmode");
    reveal_strlit("bg_bright");
    reveal_strlit("bg_rgb");
    reveal_strlit("bg_hue");
    reveal_strlit("bg_sat");
    reveal_strlit("nl_br");
    reveal_strlit("active_mode");
    let left_name = left.wire_name();
    let right_name = right.wire_name();
    assert(left_name.len() == right_name.len());
    assert(left_name[0] == right_name[0]);
    assert(left_name.len() > 3 ==> left_name[3] == right_name[3]);
}

} // verus!
