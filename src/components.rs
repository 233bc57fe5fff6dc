//! The option buttons offered with a processed image: each button carries
//! the token of the options that pressing it selects.

use vstd::prelude::*;
use crate::codec::{color_hex, decimal, push_decimal, token_of};
use crate::color::RgbColor;
use crate::model::{ActivationFunction, Models, NordPreset, activation_name, next_activation};
use crate::options::{NordOptions, preset_options, same_settings};

verus! {

#[derive(Clone, Copy, Debug, PartialEq, Eq, Structural)]
pub enum ButtonStyle {
    Primary,
    Secondary,
    Success,
}

#[derive(Clone, Copy, Debug, PartialEq, Eq, Structural)]
pub enum ButtonIcon {
    NoIcon,
    Trash,
    Play,
}

/// One button: the token or command it sends, its label and its look.
#[derive(Clone, Debug)]
pub struct ButtonSpec {
    pub custom_id: String,
    pub label: String,
    pub style: ButtonStyle,
    pub disabled: bool,
    pub icon: ButtonIcon,
}

/// A colour as `#rrggbb (r: R; g: G; b B)`.
pub open spec fn color_description(c: RgbColor) -> Seq<char> {
    color_hex(c) + " (r: "@ + decimal(c.r as nat) + "; g: "@ + decimal(c.g as nat) + "; b "@
        + decimal(c.b as nat) + ")"@
}

/// An option button: it sends the token of `target` for slot `slot`, is
/// highlighted when its setting is on, and greyed out when not `enabled`.
pub open spec fn option_button(
    b: ButtonSpec,
    label: Seq<char>,
    highlighted: bool,
    target: NordOptions,
    enabled: bool,
    message_id: u64,
    update: bool,
    slot: usize,
) -> bool {
    &&& b.custom_id@ == token_of(target, update, slot, message_id)
    &&& b.label@ == label
    &&& b.style == if highlighted {
        ButtonStyle::Primary
    } else {
        ButtonStyle::Secondary
    }
    &&& b.disabled == !enabled
    &&& b.icon == ButtonIcon::NoIcon
}

/// A command button: it sends `command-<message id>`.
pub open spec fn command_button(b: ButtonSpec, command: Seq<char>, label: Seq<char>, icon: ButtonIcon, message_id: u64) -> bool {
    &&& b.custom_id@ == command + "-"@ + decimal(message_id as nat)
    &&& b.label@ == label
    &&& b.style == ButtonStyle::Secondary
    &&& !b.disabled
    &&& b.icon == icon
}

fn option_button_of(
    label: String,
    highlighted: bool,
    target: NordOptions,
    enabled: bool,
    message_id: u64,
    update: bool,
    slot: usize,
) -> (b: ButtonSpec)
    ensures
        option_button(b, label@, highlighted, target, enabled, message_id, update, slot),
{
    ButtonSpec {
        custom_id: target.make_nord_custom_id(&message_id, update, Some(slot)),
        label,
        style: if highlighted {
            ButtonStyle::Primary
        } else {
            ButtonStyle::Secondary
        },
        disabled: !enabled,
        icon: ButtonIcon::NoIcon,
    }
}

fn command_button_of(command: &str, label: &str, icon: ButtonIcon, message_id: u64) -> (b: ButtonSpec)
    ensures
        command_button(b, command@, label@, icon, message_id),
{
    let mut id = String::from_str(command);
    id.append("-");
    push_decimal(&mut id, message_id);
    ButtonSpec {
        custom_id: id,
        label: String::from_str(label),
        style: ButtonStyle::Secondary,
        disabled: false,
        icon,
    }
}

impl RgbColor {
    /// The colour as `#rrggbb (r: R; g: G; b B)`.
    pub fn describe(&self) -> (s: String)
        ensures
            s@ == color_description(*self),
    {
        let mut s = self.as_hex();
        s.append(" (r: ");
        push_decimal(&mut s, self.r as u64);
        s.append("; g: ");
        push_decimal(&mut s, self.g as u64);
        s.append("; b ");
        push_decimal(&mut s, self.b as u64);
        s.append(")");
        s
    }
}

/// The options with processing not started.
pub open spec fn paused(o: NordOptions) -> NordOptions {
    NordOptions { start: false, ..o }
}

impl NordOptions {
    /// The rows of option buttons for these options: filters, background
    /// removal, background colour, presets, and a last row of commands.
    /// Every option button selects a copy of these options (not started)
    /// with one setting changed, or a preset.
    pub fn build_componets(&self, message_id: u64, update: bool) -> (rows: Vec<Vec<ButtonSpec>>)
        requires
            self.activation_function == ActivationFunction::Linear || self.activation_function
                == ActivationFunction::Sigmoid,
        ensures
            ({
                let o = *self;
                let base = paused(o);
                let erase = o.erase_most_present_color;
                let bg = o.background_color;
                let r0 = rows@[0]@;
                let r1 = rows@[1]@;
                let r2 = rows@[2]@;
                let r3 = rows@[3]@;
                let last = rows@[4]@;
                &&& rows@.len() == 5
                &&& r0.len() == 4
                &&& option_button(r0[0], "Invert"@, o.invert, NordOptions { invert: !o.invert, ..base }, true, message_id, update, 0)
                &&& option_button(r0[1], "Hue Rotate"@, o.hue_rotate == 180, NordOptions { hue_rotate: if o.hue_rotate == 180 { 0 } else { 180 }, ..base }, true, message_id, update, 1)
                &&& option_button(r0[2], "Sepia"@, o.sepia, NordOptions { sepia: !o.sepia, ..base }, true, message_id, update, 2)
                &&& option_button(r0[3], "Nord"@, o.nord, NordOptions { nord: !o.nord, ..base }, true, message_id, update, 3)
                &&& r1.len() == 5
                &&& option_button(r1[0], "Erase Background"@, erase, NordOptions { erase_most_present_color: !erase, ..base }, true, message_id, update, 10)
                &&& option_button(r1[1], "Dominant Color"@, o.model == Models::Algorithm, NordOptions { model: Models::Algorithm, ..base }, erase, message_id, update, 11)
                &&& option_button(r1[2], "General Use"@, o.model == Models::IsnetGeneral, NordOptions { model: Models::IsnetGeneral, ..base }, erase, message_id, update, 12)
                &&& option_button(r1[3], "Anime"@, o.model == Models::IsnetAnime, NordOptions { model: Models::IsnetAnime, ..base }, erase, message_id, update, 13)
                &&& option_button(r1[4], "Mask Function: "@ + activation_name(o.activation_function), true, NordOptions { activation_function: next_activation(o.activation_function), ..base }, erase, message_id, update, 14)
                &&& r2.len() == 2
                &&& option_button(r2[0], "Set Background"@, bg is Some, NordOptions { background_color: if bg is Some { None } else { Some(RgbColor { r: 66, g: 66, b: 66 }) }, ..base }, true, message_id, update, 20)
                &&& option_button(r2[1], match bg { Some(c) => color_description(c), None => "None"@ }, bg is Some, NordOptions { background_color: Some(RgbColor { r: 0, g: 0, b: 1 }), ..base }, bg is Some, message_id, update, 21)
                &&& r3.len() == 5
                &&& option_button(r3[0], "Presets:"@, exists|p: NordPreset| same_settings(o, #[trigger] preset_options(p)), base, false, message_id, update, 30)
                &&& option_button(r3[1], "Nord w/ Color"@, same_settings(o, preset_options(NordPreset::NordWithColor)), preset_options(NordPreset::NordWithColor), true, message_id, update, 31)
                &&& option_button(r3[2], "Nord w/o Color"@, same_settings(o, preset_options(NordPreset::Nord)), preset_options(NordPreset::Nord), true, message_id, update, 32)
                &&& option_button(r3[3], "Static Background"@, same_settings(o, preset_options(NordPreset::StaticBackground)), preset_options(NordPreset::StaticBackground), true, message_id, update, 33)
                &&& option_button(r3[4], "Dynamic Background"@, same_settings(o, preset_options(NordPreset::DynamicBackground)), preset_options(NordPreset::DynamicBackground), true, message_id, update, 34)
                &&& last.len() == if o.start { 3int } else { 4 }
                &&& !o.start ==> {
                    &&& last[0].custom_id@ == token_of(NordOptions { start: true, ..base }, update, 0, message_id)
                    &&& last[0].label@ == "Start"@
                    &&& last[0].style == ButtonStyle::Success
                    &&& !last[0].disabled
                    &&& last[0].icon == ButtonIcon::Play
                }
                &&& command_button(last[last.len() - 3], "delete"@, "Dispose of the old!"@, ButtonIcon::Trash, message_id)
                &&& command_button(last[last.len() - 2], "stop"@, "Dispose of this"@, ButtonIcon::Trash, message_id)
                &&& command_button(last[last.len() - 1], "clear"@, "Keep both"@, ButtonIcon::NoIcon, message_id)
            }),
    {
        let base = NordOptions { start: false, ..*self };
        let erase = self.erase_most_present_color;
        let row0 = vec![
            option_button_of(String::from_str("Invert"), self.invert, NordOptions { invert: !self.invert, ..base }, true, message_id, update, 0),
            option_button_of(String::from_str("Hue Rotate"), self.hue_rotate == 180, NordOptions { hue_rotate: if self.hue_rotate == 180 { 0 } else { 180 }, ..base }, true, message_id, update, 1),
            option_button_of(String::from_str("Sepia"), self.sepia, NordOptions { sepia: !self.sepia, ..base }, true, message_id, update, 2),
            option_button_of(String::from_str("Nord"), self.nord, NordOptions { nord: !self.nord, ..base }, true, message_id, update, 3),
        ];
        let mut function_name = String::from_str("Mask Function: ");
        function_name.append(self.activation_function.as_str());
        let row1 = vec![
            option_button_of(String::from_str("Erase Background"), erase, NordOptions { erase_most_present_color: !erase, ..base }, true, message_id, update, 10),
            option_button_of(String::from_str("Dominant Color"), self.model == Models::Algorithm, NordOptions { model: Models::Algorithm, ..base }, erase, message_id, update, 11),
            option_button_of(String::from_str("General Use"), self.model == Models::IsnetGeneral, NordOptions { model: Models::IsnetGeneral, ..base }, erase, message_id, update, 12),
            option_button_of(String::from_str("Anime"), self.model == Models::IsnetAnime, NordOptions { model: Models::IsnetAnime, ..base }, erase, message_id, update, 13),
            option_button_of(function_name, true, NordOptions { activation_function: self.activation_function.next(), ..base }, erase, message_id, update, 14),
        ];
        let has_bg = self.background_color.is_some();
        let bg_label = match self.background_color {
            Some(c) => c.describe(),
            None => String::from_str("None"),
        };
        let row2 = vec![
            option_button_of(String::from_str("Set Background"), has_bg, NordOptions { background_color: if has_bg { None } else { Some(RgbColor { r: 66, g: 66, b: 66 }) }, ..base }, true, message_id, update, 20),
            option_button_of(bg_label, has_bg, NordOptions { background_color: Some(RgbColor { r: 0, g: 0, b: 1 }), ..base }, has_bg, message_id, update, 21),
        ];
        let row3 = vec![
            option_button_of(String::from_str("Presets:"), self.is_any_preset(), base, false, message_id, update, 30),
            option_button_of(String::from_str("Nord w/ Color"), self.is_preset(NordPreset::NordWithColor), NordOptions::from_preset(NordPreset::NordWithColor), true, message_id, update, 31),
            option_button_of(String::from_str("Nord w/o Color"), self.is_preset(NordPreset::Nord), NordOptions::from_preset(NordPreset::Nord), true, message_id, update, 32),
            option_button_of(String::from_str("Static Background"), self.is_preset(NordPreset::StaticBackground), NordOptions::from_preset(NordPreset::StaticBackground), true, message_id, update, 33),
            option_button_of(String::from_str("Dynamic Background"), self.is_preset(NordPreset::DynamicBackground), NordOptions::from_preset(NordPreset::DynamicBackground), true, message_id, update, 34),
        ];
        let mut last: Vec<ButtonSpec> = Vec::new();
        if !self.start {
            last.push(
                ButtonSpec {
                    custom_id: NordOptions { start: true, ..base }.make_nord_custom_id(&message_id, update, None),
                    label: String::from_str("Start"),
                    style: ButtonStyle::Success,
                    disabled: false,
                    icon: ButtonIcon::Play,
                },
            );
        }
        last.push(command_button_of("delete", "Dispose of the old!", ButtonIcon::Trash, message_id));
        last.push(command_button_of("stop", "Dispose of this", ButtonIcon::Trash, message_id));
        last.push(command_button_of("clear", "Keep both", ButtonIcon::NoIcon, message_id));
        vec![row0, row1, row2, row3, last]
    }
}

} // verus!
