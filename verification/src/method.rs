//! The operations a device understands, and how each is put on the wire.

use crate::json::{views_of, Json, JsonValue};
use crate::property::{same_text, Property};
use vstd::prelude::*;

verus! {

/// The effect to use when setting a certain property.
#[derive(Clone, Copy, PartialEq, Eq, Debug)]
pub enum Effect {
    /// Values will be changed directly, with no duration or transition.
    Sudden,
    /// Values will be changed gradually, the total time of gradual change is specified by the duration.
    Smooth,
}

/// Methods to be called on a device.
#[derive(Clone, PartialEq, Eq, Debug)]
pub enum Method {
    /// Get the specified property value.
    GetProp(Property),
    /// Gets multiple property values.
    GetProps(Vec<Property>),
    /// Toggle the power state of the device.
    Toggle,
    /// Set the power state of the device.
    SetPower(bool, Option<Effect>, Option<i32>),
    /// Set the RGB Color of the light.
    SetRgb(i32, Option<Effect>, Option<i32>),
    /// Set the HSV Color of the light.
    ///
    /// # Arguments
    /// * `hue` - The hue of the color. It should be expressed in decimal integer ranges from 0 to 359.
    /// * `sat` - The saturation of the color. It's range is 0 to 100.
    SetHsv(i32, i32, Option<Effect>, Option<i32>),
    /// Set the brightness of the light.
    ///
    /// # Arguments
    /// * `bright` - The brightness of the light. It's range is 1 to 100. The brightness is a percentage instead of a absolute value. 100 means maximum brightness while 1 means the minimum brightness.
    SetBright(i32, Option<Effect>, Option<i32>),
    /// This method is used to save current state of smart LED in persistent memory. So if user powers off and then powers on the smart LED again (hard power reset), the smart LED will show last saved state.
    SetDefault,
    /// [`Method::SetRgb`]
    BgSetRgb(i32, Option<Effect>, Option<i32>),
    /// [`Method::SetHsv`]
    BgSetHsv(i32, i32, Option<Effect>, Option<i32>),
    /// Saves current Background state; see [`Method::SetDefault`] for more info.
    BgSetDefault,
    /// [`Method::SetPower`]
    BgSetPower(bool, Option<Effect>, Option<i32>),
    /// [`Method::SetRgb`]
    BgSetBright(i32, Option<Effect>, Option<i32>),
    /// Set color temperature of the light.
    ///
    /// # Arguments
    /// * `ct_value` is the target color temperature. The type is integer and range is 1700 ~ 6500 (k).
    SetCtAbx(i32, Option<Effect>, Option<i32>),
    /// [`Method::SetCtAbx`]
    BgSetCtAbx(i32, Option<Effect>, Option<i32>),
}

impl Effect {
    /// The name of the effect on the wire.
    pub open spec fn wire_name(self) -> Seq<char> {
        match self {
            Effect::Sudden => "sudden"@,
            Effect::Smooth => "smooth"@,
        }
    }

    /// The name of the effect on the wire.
    pub fn name(&self) -> (name: &'static str)
        ensures
            name@ == self.wire_name(),
    {
        match self {
            Effect::Sudden => "sudden",
            Effect::Smooth => "smooth",
        }
    }

    /// The effect that goes by `name` on the wire, if there is one.
    pub open spec fn named(name: Seq<char>) -> Option<Effect> {
        if name == "sudden"@ {
            Some(Effect::Sudden)
        } else if name == "smooth"@ {
            Some(Effect::Smooth)
        } else {
            None
        }
    }

    /// The effect that goes by `name` on the wire, if there is one.
    pub fn from_name(name: &str) -> (found: Option<Effect>)
        ensures
            found == Effect::named(name@),
    {
        if same_text(name, "sudden") {
            Some(Effect::Sudden)
        } else if same_text(name, "smooth") {
            Some(Effect::Smooth)
        } else {
            None
        }
    }
}

/// An effect is found again by its wire name, and by no other text.
pub proof fn lemma_effect_named(effect: Effect, name: Seq<char>)
    ensures
        Effect::named(name) == Some(effect) <==> effect.wire_name() == name,
{
    reveal_strlit("sudden");
    reveal_strlit("smooth");
    assert("sudden"@[1] != "smooth"@[1]);
}

/// A whole number as a parameter.
pub open spec fn number_param(number: i32) -> JsonValue {
    JsonValue::Int(number as i64)
}

/// A power state as a parameter: the word `on` or the word `off`.
pub open spec fn power_param(on: bool) -> JsonValue {
    if on {
        JsonValue::Str("on"@)
    } else {
        JsonValue::Str("off"@)
    }
}

/// The parameters that say how a change is carried out: the effect, where
/// one is given, then the duration, where one is given.
pub open spec fn tuning_params(effect: Option<Effect>, duration: Option<i32>) -> Seq<JsonValue> {
    let effect_part = match effect {
        Some(effect) => seq![JsonValue::Str(effect.wire_name())],
        None => seq![],
    };
    let duration_part = match duration {
        Some(duration) => seq![number_param(duration)],
        None => seq![],
    };
    effect_part + duration_part
}

/// The wire names of a list of properties, as parameters.
pub open spec fn property_params(properties: Seq<Property>) -> Seq<JsonValue> {
    Seq::new(properties.len(), |i: int| JsonValue::Str(properties[i].wire_name()))
}

impl Method {
    /// The name of the operation on the wire.
    pub open spec fn wire_name(self) -> Seq<char> {
        match self {
            Method::GetProp(_) => "get_prop"@,
            Method::GetProps(_) => "get_prop"@,
            Method::Toggle => "toggle"@,
            Method::SetPower(..) => "set_power"@,
            Method::SetRgb(..) => "set_rgb"@,
            Method::SetHsv(..) => "set_hsv"@,
            Method::SetBright(..) => "set_bright"@,
            Method::SetDefault => "set_default"@,
            Method::BgSetRgb(..) => "bg_set_rgb"@,
            Method::BgSetHsv(..) => "bg_set_hsv"@,
            Method::BgSetDefault => "bg_set_default"@,
            Method::BgSetPower(..) => "bg_set_power"@,
            Method::BgSetBright(..) => "bg_set_bright"@,
            Method::SetCtAbx(..) => "set_ct_abx"@,
            Method::BgSetCtAbx(..) => "bg_set_ct_abx"@,
        }
    }

    /// The ordered parameter list of the operation on the wire. An effect or
    /// a duration that is not given takes no place in it.
    pub open spec fn wire_params(self) -> Seq<JsonValue> {
        match self {
            Method::GetProp(property) => seq![JsonValue::Str(property.wire_name())],
            Method::GetProps(properties) => property_params(properties@),
            Method::Toggle => seq![],
            Method::SetPower(on, effect, duration) => seq![power_param(on)] + tuning_params(
                effect,
                duration,
            ),
            Method::SetRgb(rgb, effect, duration) => seq![number_param(rgb)] + tuning_params(
                effect,
                duration,
            ),
            Method::SetHsv(hue, sat, effect, duration) => seq![
                number_param(hue),
                number_param(sat),
            ] + tuning_params(effect, duration),
            Method::SetBright(bright, effect, duration) => seq![number_param(bright)]
                + tuning_params(effect, duration),
            Method::SetDefault => seq![],
            Method::BgSetRgb(rgb, effect, duration) => seq![number_param(rgb)] + tuning_params(
                effect,
                duration,
            ),
            Method::BgSetHsv(hue, sat, effect, duration) => seq![
                number_param(hue),
                number_param(sat),
            ] + tuning_params(effect, duration),
            Method::BgSetDefault => seq![],
            Method::BgSetPower(on, effect, duration) => seq![power_param(on)] + tuning_params(
                effect,
                duration,
            ),
            Method::BgSetBright(bright, effect, duration) => seq![number_param(bright)]
                + tuning_params(effect, duration),
            Method::SetCtAbx(ct, effect, duration) => seq![number_param(ct)] + tuning_params(
                effect,
                duration,
            ),
            Method::BgSetCtAbx(ct, effect, duration) => seq![number_param(ct)] + tuning_params(
                effect,
                duration,
            ),
        }
    }

    /// The name of the operation on the wire.
    pub fn name(&self) -> (name: &'static str)
        ensures
            name@ == self.wire_name(),
    {
        match self {
            Method::GetProp(_) => "get_prop",
            Method::GetProps(_) => "get_prop",
            Method::Toggle => "toggle",
            Method::SetPower(..) => "set_power",
            Method::SetRgb(..) => "set_rgb",
            Method::SetHsv(..) => "set_hsv",
            Method::SetBright(..) => "set_bright",
            Method::SetDefault => "set_default",
            Method::BgSetRgb(..) => "bg_set_rgb",
            Method::BgSetHsv(..) => "bg_set_hsv",
            Method::BgSetDefault => "bg_set_default",
            Method::BgSetPower(..) => "bg_set_power",
            Method::BgSetBright(..) => "bg_set_bright",
            Method::SetCtAbx(..) => "set_ct_abx",
            Method::BgSetCtAbx(..) => "bg_set_ct_abx",
        }
    }

    /// The ordered parameter list of the operation on the wire.
    pub fn get_params(&self) -> (params: Vec<Json>)
        ensures
            views_of(params@) == self.wire_params(),
    {
        let mut params: Vec<Json> = Vec::new();
        assert(views_of(params@) =~= Seq::<JsonValue>::empty());
        match self {
            Method::GetProp(property) => {
                push_text(&mut params, property.name());
            },
            Method::GetProps(properties) => {
                let mut i: usize = 0;
                while i < properties.len()
                    invariant
                        i <= properties.len(),
                        views_of(params@) == property_params(properties@.take(i as int)),
                    decreases properties.len() - i,
                {
                    push_text(&mut params, properties[i].name());
                    assert(views_of(params@) =~= property_params(
                        properties@.take(i as int + 1),
                    ));
                    i += 1;
                }
                assert(properties@.take(i as int) == properties@);
            },
            Method::Toggle | Method::SetDefault | Method::BgSetDefault => {},
            Method::SetPower(on, effect, duration) | Method::BgSetPower(on, effect, duration) => {
                push_power(&mut params, *on);
                push_tuning(&mut params, *effect, *duration);
            },
            Method::SetRgb(value, effect, duration)
            | Method::SetBright(value, effect, duration)
            | Method::BgSetRgb(value, effect, duration)
            | Method::BgSetBright(value, effect, duration)
            | Method::SetCtAbx(value, effect, duration)
            | Method::BgSetCtAbx(value, effect, duration) => {
                push_number(&mut params, *value);
                push_tuning(&mut params, *effect, *duration);
            },
            Method::SetHsv(hue, sat, effect, duration)
            | Method::BgSetHsv(hue, sat, effect, duration) => {
                push_number(&mut params, *hue);
                push_number(&mut params, *sat);
                push_tuning(&mut params, *effect, *duration);
            },
        }
        assert(views_of(params@) =~= self.wire_params());
        params
    }
}

/// Appends a string parameter.
fn push_text(params: &mut Vec<Json>, text: &str)
    ensures
        views_of(final(params)@) == views_of(old(params)@).push(JsonValue::Str(text@)),
{
    params.push(Json::text(text));
    assert(views_of(params@) =~= views_of(old(params)@).push(JsonValue::Str(text@)));
}

/// Appends a whole number as a parameter.
fn push_number(params: &mut Vec<Json>, number: i32)
    ensures
        views_of(final(params)@) == views_of(old(params)@).push(number_param(number)),
{
    params.push(Json::Int(number as i64));
    assert(views_of(params@) =~= views_of(old(params)@).push(number_param(number)));
}

/// Appends a power state as a parameter.
fn push_power(params: &mut Vec<Json>, on: bool)
    ensures
        views_of(final(params)@) == views_of(old(params)@).push(power_param(on)),
{
    if on {
        push_text(params, "on");
    } else {
        push_text(params, "off");
    }
}

/// Appends the effect and the duration, each where it is given.
fn push_tuning(params: &mut Vec<Json>, effect: Option<Effect>, duration: Option<i32>)
    ensures
        views_of(final(params)@) == views_of(old(params)@) + tuning_params(effect, duration),
{
    match effect {
        Some(effect) => {
            push_text(params, effect.name());
        },
        None => {},
    }
    match duration {
        Some(duration) => {
            push_number(params, duration);
        },
        None => {},
    }
    assert(views_of(params@) =~= views_of(old(params)@) + tuning_params(effect, duration));
}

impl Method {
    /// Whether the method goes over the wire under `name` with `params`.
    pub open spec fn is_sent_as(self, name: Seq<char>, params: Seq<JsonValue>) -> bool {
        self.wire_name() == name && self.wire_params() == params
    }

    /// The method that goes over the wire under `name` with `params`, where
    /// there is one. A list of properties is always read as
    /// [`Method::GetProps`], which goes over the wire as
    /// [`Method::GetProp`] does.
    pub fn from_wire(name: &str, params: &Vec<Json>) -> (method: Option<Method>)
        ensures
            match method {
                Some(method) => method.is_sent_as(name@, views_of(params@)),
                None => forall|method: Method| !method.is_sent_as(name@, views_of(params@)),
            },
    {
        let ghost sent = views_of(params@);
        proof {
            assert forall|method: Method| #[trigger] method.wire_name() == name@ implies named_like(
                method,
                name@,
            ) by {
                lemma_method_names(method, name@);
            }
        }
        if same_text(name, "get_prop") {
            match read_properties(params) {
                Some(properties) => Some(Method::GetProps(properties)),
                None => {
                    assert forall|method: Method| !method.is_sent_as(name@, sent) by {
                        if method.is_sent_as(name@, sent) {
                            match method {
                                Method::GetProp(property) => {
                                    assert(sent == property_params(seq![property]));
                                },
                                _ => {},
                            }
                        }
                    }
                    None
                },
            }
        } else if same_text(name, "toggle") {
            if params.len() == 0 {
                assert(sent =~= seq![]);
                Some(Method::Toggle)
            } else {
                assert forall|method: Method| !method.is_sent_as(name@, sent) by {
                    if method.wire_name() == name@ {
                        assert(named_like(method, name@));
                        assert(sent.len() > 0);
                    }
                }
                None
            }
        } else if same_text(name, "set_default") {
            if params.len() == 0 {
                assert(sent =~= seq![]);
                Some(Method::SetDefault)
            } else {
                assert forall|method: Method| !method.is_sent_as(name@, sent) by {
                    if method.wire_name() == name@ {
                        assert(named_like(method, name@));
                        assert(sent.len() > 0);
                    }
                }
                None
            }
        } else if same_text(name, "bg_set_default") {
            if params.len() == 0 {
                assert(sent =~= seq![]);
                Some(Method::BgSetDefault)
            } else {
                assert forall|method: Method| !method.is_sent_as(name@, sent) by {
                    if method.wire_name() == name@ {
                        assert(named_like(method, name@));
                        assert(sent.len() > 0);
                    }
                }
                None
            }
        } else if same_text(name, "set_power") {
            match read_switch(params) {
                Some((on, effect, duration)) => Some(Method::SetPower(on, effect, duration)),
                None => {
                    assert forall|method: Method| !method.is_sent_as(name@, sent) by {
                        if method.wire_name() == name@ {
                            assert(named_like(method, name@));
                            assert(method is SetPower);
                        }
                    }
                    None
                },
            }
        } else if same_text(name, "bg_set_power") {
            match read_switch(params) {
                Some((on, effect, duration)) => Some(Method::BgSetPower(on, effect, duration)),
                None => {
                    assert forall|method: Method| !method.is_sent_as(name@, sent) by {
                        if method.wire_name() == name@ {
                            assert(named_like(method, name@));
                            assert(method is BgSetPower);
                        }
                    }
                    None
                },
            }
        } else if same_text(name, "set_rgb") {
            match read_level(params) {
                Some((value, effect, duration)) => Some(Method::SetRgb(value, effect, duration)),
                None => {
                    assert forall|method: Method| !method.is_sent_as(name@, sent) by {
                        if method.wire_name() == name@ {
                            assert(named_like(method, name@));
                            assert(method is SetRgb);
                        }
                    }
                    None
                },
            }
        } else if same_text(name, "set_bright") {
            match read_level(params) {
                Some((value, effect, duration)) => Some(
                    Method::SetBright(value, effect, duration),
                ),
                None => {
                    assert forall|method: Method| !method.is_sent_as(name@, sent) by {
                        if method.wire_name() == name@ {
                            assert(named_like(method, name@));
                            assert(method is SetBright);
                        }
                    }
                    None
                },
            }
        } else if same_text(name, "bg_set_rgb") {
            match read_level(params) {
                Some((value, effect, duration)) => Some(Method::BgSetRgb(value, effect, duration)),
                None => {
                    assert forall|method: Method| !method.is_sent_as(name@, sent) by {
                        if method.wire_name() == name@ {
                            assert(named_like(method, name@));
                            assert(method is BgSetRgb);
                        }
                    }
                    None
                },
            }
        } else if same_text(name, "bg_set_bright") {
            match read_level(params) {
                Some((value, effect, duration)) => Some(
                    Method::BgSetBright(value, effect, duration),
                ),
                None => {
                    assert forall|method: Method| !method.is_sent_as(name@, sent) by {
                        if method.wire_name() == name@ {
                            assert(named_like(method, name@));
                            assert(method is BgSetBright);
                        }
                    }
                    None
                },
            }
        } else if same_text(name, "set_ct_abx") {
            match read_level(params) {
                Some((value, effect, duration)) => Some(Method::SetCtAbx(value, effect, duration)),
                None => {
                    assert forall|method: Method| !method.is_sent_as(name@, sent) by {
                        if method.wire_name() == name@ {
                            assert(named_like(method, name@));
                            assert(method is SetCtAbx);
                        }
                    }
                    None
                },
            }
        } else if same_text(name, "bg_set_ct_abx") {
            match read_level(params) {
                Some((value, effect, duration)) => Some(
                    Method::BgSetCtAbx(value, effect, duration),
                ),
                None => {
                    assert forall|method: Method| !method.is_sent_as(name@, sent) by {
                        if method.wire_name() == name@ {
                            assert(named_like(method, name@));
                            assert(method is BgSetCtAbx);
                        }
                    }
                    None
                },
            }
        } else if same_text(name, "set_hsv") {
            match read_hue_and_sat(params) {
                Some((hue, sat, effect, duration)) => Some(
                    Method::SetHsv(hue, sat, effect, duration),
                ),
                None => {
                    assert forall|method: Method| !method.is_sent_as(name@, sent) by {
                        if method.wire_name() == name@ {
                            assert(named_like(method, name@));
                            assert(method is SetHsv);
                        }
                    }
                    None
                },
            }
        } else if same_text(name, "bg_set_hsv") {
            match read_hue_and_sat(params) {
                Some((hue, sat, effect, duration)) => Some(
                    Method::BgSetHsv(hue, sat, effect, duration),
                ),
                None => {
                    assert forall|method: Method| !method.is_sent_as(name@, sent) by {
                        if method.wire_name() == name@ {
                            assert(named_like(method, name@));
                            assert(method is BgSetHsv);
                        }
                    }
                    None
                },
            }
        } else {
            assert forall|method: Method| !method.is_sent_as(name@, sent) by {
                lemma_method_is_named(method);
            }
            None
        }
    }
}

/// The effect and the duration can be told from the parameters that say
/// them.
pub proof fn lemma_tuning_is_told(
    effect: Option<Effect>,
    duration: Option<i32>,
    other_effect: Option<Effect>,
    other_duration: Option<i32>,
)
    requires
        tuning_params(effect, duration) == tuning_params(other_effect, other_duration),
    ensures
        effect == other_effect,
        duration == other_duration,
{
    let one = tuning_params(effect, duration);
    let other = tuning_params(other_effect, other_duration);
    assert(one.len() == other.len());
    if one.len() > 0 {
        assert(one[0] == other[0]);
        if effect is Some {
            lemma_effect_named(effect->Some_0, other_effect->Some_0.wire_name());
            lemma_effect_named(other_effect->Some_0, other_effect->Some_0.wire_name());
        }
    }
    if one.len() > 1 {
        assert(one[1] == other[1]);
    }
}

/// Two methods that go over the wire alike are the same method, but for
/// [`Method::GetProp`], which goes as a list of one property does, and up to
/// which list holds the properties.
pub proof fn lemma_wire_form_tells_methods(one: Method, other: Method)
    requires
        one.wire_name() == other.wire_name(),
        one.wire_params() == other.wire_params(),
        !(one is GetProp),
        !(other is GetProp),
    ensures
        one matches Method::GetProps(properties) ==> other matches Method::GetProps(others)
            && properties@ == others@,
        !(one is GetProps) ==> one == other,
{
    lemma_method_names(one, other.wire_name());
    lemma_method_names(other, one.wire_name());
    lemma_method_is_named(one);
    reveal_strlit("on");
    reveal_strlit("off");
    assert("on"@.len() != "off"@.len());
    let sent = one.wire_params();
    let same = other.wire_params();
    match (one, other) {
        (Method::GetProps(properties), Method::GetProps(others)) => {
            assert(properties@.len() == sent.len());
            assert(others@.len() == same.len());
            assert forall|i: int| 0 <= i < properties@.len() implies properties@[i] == others@[i] by {
                assert(sent[i] == JsonValue::Str(properties@[i].wire_name()));
                assert(same[i] == JsonValue::Str(others@[i].wire_name()));
                crate::property::lemma_property_names_distinct(properties@[i], others@[i]);
            }
            assert(properties@ =~= others@);
        },
        (Method::SetPower(on, effect, duration), Method::SetPower(on2, effect2, duration2))
        | (
            Method::BgSetPower(on, effect, duration),
            Method::BgSetPower(on2, effect2, duration2),
        ) => {
            assert(sent[0] == same[0]);
            assert(sent.skip(1) =~= tuning_params(effect, duration));
            assert(same.skip(1) =~= tuning_params(effect2, duration2));
            lemma_tuning_is_told(effect, duration, effect2, duration2);
        },
        (Method::SetRgb(value, effect, duration), Method::SetRgb(value2, effect2, duration2))
        | (
            Method::SetBright(value, effect, duration),
            Method::SetBright(value2, effect2, duration2),
        )
        | (Method::BgSetRgb(value, effect, duration), Method::BgSetRgb(value2, effect2, duration2))
        | (
            Method::BgSetBright(value, effect, duration),
            Method::BgSetBright(value2, effect2, duration2),
        )
        | (Method::SetCtAbx(value, effect, duration), Method::SetCtAbx(value2, effect2, duration2))
        | (
            Method::BgSetCtAbx(value, effect, duration),
            Method::BgSetCtAbx(value2, effect2, duration2),
        ) => {
            assert(sent[0] == same[0]);
            assert(sent.skip(1) =~= tuning_params(effect, duration));
            assert(same.skip(1) =~= tuning_params(effect2, duration2));
            lemma_tuning_is_told(effect, duration, effect2, duration2);
        },
        (
            Method::SetHsv(hue, sat, effect, duration),
            Method::SetHsv(hue2, sat2, effect2, duration2),
        )
        | (
            Method::BgSetHsv(hue, sat, effect, duration),
            Method::BgSetHsv(hue2, sat2, effect2, duration2),
        ) => {
            assert(sent[0] == same[0]);
            assert(sent[1] == same[1]);
            assert(sent.skip(2) =~= tuning_params(effect, duration));
            assert(same.skip(2) =~= tuning_params(effect2, duration2));
            lemma_tuning_is_told(effect, duration, effect2, duration2);
        },
        _ => {},
    }
}

/// Every method goes by one of fourteen names.
proof fn lemma_method_is_named(method: Method)
    ensures
        method.wire_name() == "get_prop"@ || method.wire_name() == "toggle"@ || method.wire_name()
            == "set_power"@ || method.wire_name() == "set_rgb"@ || method.wire_name()
            == "set_hsv"@ || method.wire_name() == "set_bright"@ || method.wire_name()
            == "set_default"@ || method.wire_name() == "bg_set_rgb"@ || method.wire_name()
            == "bg_set_hsv"@ || method.wire_name() == "bg_set_default"@ || method.wire_name()
            == "bg_set_power"@ || method.wire_name() == "bg_set_bright"@ || method.wire_name()
            == "set_ct_abx"@ || method.wire_name() == "bg_set_ct_abx"@,
{
}

/// Whether the method is one of those that go by `name`, for each name that
/// a method goes by.
pub open spec fn named_like(method: Method, name: Seq<char>) -> bool {
    &&& name == "get_prop"@ ==> method is GetProp || method is GetProps
    &&& name == "toggle"@ ==> method is Toggle
    &&& name == "set_power"@ ==> method is SetPower
    &&& name == "set_rgb"@ ==> method is SetRgb
    &&& name == "set_hsv"@ ==> method is SetHsv
    &&& name == "set_bright"@ ==> method is SetBright
    &&& name == "set_default"@ ==> method is SetDefault
    &&& name == "bg_set_rgb"@ ==> method is BgSetRgb
    &&& name == "bg_set_hsv"@ ==> method is BgSetHsv
    &&& name == "bg_set_default"@ ==> method is BgSetDefault
    &&& name == "bg_set_power"@ ==> method is BgSetPower
    &&& name == "bg_set_bright"@ ==> method is BgSetBright
    &&& name == "set_ct_abx"@ ==> method is SetCtAbx
    &&& name == "bg_set_ct_abx"@ ==> method is BgSetCtAbx
}

/// A wire name belongs to one kind of method only, but for `get_prop`,
/// which asks for one property or for several.
pub proof fn lemma_method_names(method: Method, name: Seq<char>)
    requires
        method.wire_name() == name,
    ensures
        named_like(method, name),
{
    reveal_strlit("get_prop");
    reveal_strlit("toggle");
    reveal_strlit("set_power");
    reveal_strlit("set_rgb");
    reveal_strlit("set_hsv");
    reveal_strlit("set_bright");
    reveal_strlit("set_default");
    reveal_strlit("bg_set_rgb");
    reveal_strlit("bg_set_hsv");
    reveal_strlit("bg_set_default");
    reveal_strlit("bg_set_power");
    reveal_strlit("bg_set_bright");
    reveal_strlit("set_ct_abx");
    reveal_strlit("bg_set_ct_abx");
    assert("get_prop"@.len() == 8);
    assert("toggle"@.len() == 6);
    assert("set_power"@.len() == 9);
    assert("set_rgb"@.len() == 7);
    assert("set_hsv"@.len() == 7);
    assert("set_bright"@.len() == 10);
    assert("set_default"@.len() == 11);
    assert("bg_set_rgb"@.len() == 10);
    assert("bg_set_hsv"@.len() == 10);
    assert("bg_set_default"@.len() == 14);
    assert("bg_set_power"@.len() == 12);
    assert("bg_set_bright"@.len() == 13);
    assert("set_ct_abx"@.len() == 10);
    assert("bg_set_ct_abx"@.len() == 13);
    assert("set_rgb"@[4] != "set_hsv"@[4]);
    assert("set_bright"@[7] != "bg_set_rgb"@[7]);
    assert("set_bright"@[7] != "bg_set_hsv"@[7]);
    assert("set_bright"@[7] != "set_ct_abx"@[7]);
    assert("bg_set_rgb"@[7] != "bg_set_hsv"@[7]);
    assert("bg_set_rgb"@[7] != "set_ct_abx"@[7]);
    assert("bg_set_hsv"@[7] != "set_ct_abx"@[7]);
    assert("bg_set_bright"@[7] != "bg_set_ct_abx"@[7]);
}

/// Reads a parameter as a whole number.
fn read_number(param: &Json) -> (number: Option<i32>)
    ensures
        match number {
            Some(number) => param@ == number_param(number),
            None => forall|number: i32| param@ != number_param(number),
        },
{
    param.as_i32()
}

/// Reads a parameter as a power state.
fn read_power(param: &Json) -> (on: Option<bool>)
    ensures
        match on {
            Some(on) => param@ == power_param(on),
            None => forall|on: bool| param@ != power_param(on),
        },
{
    match param.as_text() {
        Some(text) => {
            if same_text(text.as_str(), "on") {
                Some(true)
            } else if same_text(text.as_str(), "off") {
                Some(false)
            } else {
                None
            }
        },
        None => None,
    }
}

/// Reads a parameter as an effect.
fn read_effect(param: &Json) -> (effect: Option<Effect>)
    ensures
        match effect {
            Some(effect) => param@ == JsonValue::Str(effect.wire_name()),
            None => forall|effect: Effect| param@ != JsonValue::Str(effect.wire_name()),
        },
{
    match param.as_text() {
        Some(text) => {
            let found = Effect::from_name(text.as_str());
            proof {
                assert forall|effect: Effect| Effect::named(text@) == Some(effect)
                    <==> effect.wire_name() == text@ by {
                    lemma_effect_named(effect, text@);
                }
            }
            found
        },
        None => None,
    }
}

/// Reads a parameter as the name of a property.
fn read_property(param: &Json) -> (property: Option<Property>)
    ensures
        match property {
            Some(property) => param@ == JsonValue::Str(property.wire_name()),
            None => forall|property: Property| param@ != JsonValue::Str(property.wire_name()),
        },
{
    match param.as_text() {
        Some(text) => Property::from_name(text.as_str()),
        None => None,
    }
}

/// Reads the parameters as the names of properties.
fn read_properties(params: &Vec<Json>) -> (properties: Option<Vec<Property>>)
    ensures
        match properties {
            Some(properties) => views_of(params@) == property_params(properties@),
            None => forall|properties: Seq<Property>|
                views_of(params@) != property_params(properties),
        },
{
    let ghost sent = views_of(params@);
    let mut properties: Vec<Property> = Vec::new();
    let mut i: usize = 0;
    while i < params.len()
        invariant
            i <= params.len(),
            sent == views_of(params@),
            properties@.len() == i,
            forall|k: int| 0 <= k < i ==> sent[k] == JsonValue::Str(properties@[k].wire_name()),
        decreases params.len() - i,
    {
        match read_property(&params[i]) {
            Some(property) => {
                properties.push(property);
            },
            None => {
                assert forall|others: Seq<Property>| sent != property_params(others) by {
                    if sent == property_params(others) {
                        assert(property_params(others).len() == others.len());
                        assert(property_params(others)[i as int] == JsonValue::Str(
                            others[i as int].wire_name(),
                        ));
                    }
                }
                return None;
            },
        }
        i += 1;
    }
    assert(sent =~= property_params(properties@));
    Some(properties)
}

/// Reads the parameters from `from` on as an effect and a duration, each
/// where it is given.
fn read_tuning(params: &Vec<Json>, from: usize) -> (tuning: Option<(Option<Effect>, Option<i32>)>)
    requires
        from <= params.len(),
    ensures
        match tuning {
            Some((effect, duration)) => views_of(params@).skip(from as int) == tuning_params(
                effect,
                duration,
            ),
            None => forall|effect: Option<Effect>, duration: Option<i32>|
                views_of(params@).skip(from as int) != tuning_params(effect, duration),
        },
{
    let ghost rest = views_of(params@).skip(from as int);
    let count = params.len() - from;
    if count == 0 {
        assert(rest =~= tuning_params(None, None));
        Some((None, None))
    } else if count == 1 {
        assert(rest[0] == params@[from as int]@);
        match read_effect(&params[from]) {
            Some(effect) => {
                assert(rest =~= tuning_params(Some(effect), None));
                Some((Some(effect), None))
            },
            None => match read_number(&params[from]) {
                Some(duration) => {
                    assert(rest =~= tuning_params(None, Some(duration)));
                    Some((None, Some(duration)))
                },
                None => {
                    assert forall|effect: Option<Effect>, duration: Option<i32>|
                        rest != tuning_params(effect, duration) by {
                        if rest == tuning_params(effect, duration) {
                            if effect is Some {
                                assert(rest[0] == JsonValue::Str(effect->Some_0.wire_name()));
                            } else if duration is Some {
                                assert(rest[0] == number_param(duration->Some_0));
                            }
                        }
                    }
                    None
                },
            },
        }
    } else if count == 2 {
        assert(rest[0] == params@[from as int]@);
        assert(rest[1] == params@[from as int + 1]@);
        match (read_effect(&params[from]), read_number(&params[from + 1])) {
            (Some(effect), Some(duration)) => {
                assert(rest =~= tuning_params(Some(effect), Some(duration)));
                Some((Some(effect), Some(duration)))
            },
            _ => {
                assert forall|effect: Option<Effect>, duration: Option<i32>|
                    rest != tuning_params(effect, duration) by {
                    if rest == tuning_params(effect, duration) {
                        assert(effect is Some && duration is Some);
                        assert(rest[0] == JsonValue::Str(effect->Some_0.wire_name()));
                        assert(rest[1] == number_param(duration->Some_0));
                    }
                }
                None
            },
        }
    } else {
        assert forall|effect: Option<Effect>, duration: Option<i32>|
            rest != tuning_params(effect, duration) by {
            assert(tuning_params(effect, duration).len() <= 2);
        }
        None
    }
}

/// Reads the parameters as a power state with its tuning.
fn read_switch(params: &Vec<Json>) -> (read: Option<(bool, Option<Effect>, Option<i32>)>)
    ensures
        match read {
            Some((on, effect, duration)) => views_of(params@) == seq![power_param(on)]
                + tuning_params(effect, duration),
            None => forall|on: bool, effect: Option<Effect>, duration: Option<i32>|
                views_of(params@) != seq![power_param(on)] + tuning_params(effect, duration),
        },
{
    let ghost sent = views_of(params@);
    if params.len() == 0 {
        assert forall|on: bool, effect: Option<Effect>, duration: Option<i32>|
            sent != seq![power_param(on)] + tuning_params(effect, duration) by {
            assert((seq![power_param(on)] + tuning_params(effect, duration)).len() > 0);
        }
        return None;
    }
    match (read_power(&params[0]), read_tuning(params, 1)) {
        (Some(on), Some((effect, duration))) => {
            assert(sent =~= seq![power_param(on)] + sent.skip(1));
            Some((on, effect, duration))
        },
        _ => {
            assert forall|on: bool, effect: Option<Effect>, duration: Option<i32>|
                sent != seq![power_param(on)] + tuning_params(effect, duration) by {
                let other = seq![power_param(on)] + tuning_params(effect, duration);
                if sent == other {
                    assert(other[0] == power_param(on));
                    assert(other.skip(1) =~= tuning_params(effect, duration));
                }
            }
            None
        },
    }
}

/// Reads the parameters as one whole number with its tuning.
fn read_level(params: &Vec<Json>) -> (read: Option<(i32, Option<Effect>, Option<i32>)>)
    ensures
        match read {
            Some((value, effect, duration)) => views_of(params@) == seq![number_param(value)]
                + tuning_params(effect, duration),
            None => forall|value: i32, effect: Option<Effect>, duration: Option<i32>|
                views_of(params@) != seq![number_param(value)] + tuning_params(effect, duration),
        },
{
    let ghost sent = views_of(params@);
    if params.len() == 0 {
        assert forall|value: i32, effect: Option<Effect>, duration: Option<i32>|
            sent != seq![number_param(value)] + tuning_params(effect, duration) by {
            assert((seq![number_param(value)] + tuning_params(effect, duration)).len() > 0);
        }
        return None;
    }
    match (read_number(&params[0]), read_tuning(params, 1)) {
        (Some(value), Some((effect, duration))) => {
            assert(sent =~= seq![number_param(value)] + sent.skip(1));
            Some((value, effect, duration))
        },
        _ => {
            assert forall|value: i32, effect: Option<Effect>, duration: Option<i32>|
                sent != seq![number_param(value)] + tuning_params(effect, duration) by {
                let other = seq![number_param(value)] + tuning_params(effect, duration);
                if sent == other {
                    assert(other[0] == number_param(value));
                    assert(other.skip(1) =~= tuning_params(effect, duration));
                }
            }
            None
        },
    }
}

/// Reads the parameters as a hue and a saturation with their tuning.
fn read_hue_and_sat(params: &Vec<Json>) -> (read: Option<
    (i32, i32, Option<Effect>, Option<i32>),
>)
    ensures
        match read {
            Some((hue, sat, effect, duration)) => views_of(params@) == seq![
                number_param(hue),
                number_param(sat),
            ] + tuning_params(effect, duration),
            None => forall|hue: i32, sat: i32, effect: Option<Effect>, duration: Option<i32>|
                views_of(params@) != seq![number_param(hue), number_param(sat)] + tuning_params(
                    effect,
                    duration,
                ),
        },
{
    let ghost sent = views_of(params@);
    if params.len() < 2 {
        assert forall|hue: i32, sat: i32, effect: Option<Effect>, duration: Option<i32>|
            sent != seq![number_param(hue), number_param(sat)] + tuning_params(
                effect,
                duration,
            ) by {
            assert((seq![number_param(hue), number_param(sat)] + tuning_params(
                effect,
                duration,
            )).len() > 1);
        }
        return None;
    }
    match (read_number(&params[0]), read_number(&params[1]), read_tuning(params, 2)) {
        (Some(hue), Some(sat), Some((effect, duration))) => {
            assert(sent =~= seq![number_param(hue), number_param(sat)] + sent.skip(2));
            Some((hue, sat, effect, duration))
        },
        _ => {
            assert forall|hue: i32, sat: i32, effect: Option<Effect>, duration: Option<i32>|
                sent != seq![number_param(hue), number_param(sat)] + tuning_params(
                    effect,
                    duration,
                ) by {
                let other = seq![number_param(hue), number_param(sat)] + tuning_params(
                    effect,
                    duration,
                );
                if sent == other {
                    assert(other[0] == number_param(hue));
                    assert(other[1] == number_param(sat));
                    assert(other.skip(2) =~= tuning_params(effect, duration));
                }
            }
            None
        },
    }
}

} // verus!
