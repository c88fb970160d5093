//! The two themes: which shade of the palette each part of the window
//! takes in dark and in light mode, and how wide its border is. The palette's
//! colour values belong to the program that draws.

use vstd::prelude::*;

verus! {

/// A slot of the palette.
#[derive(Clone, Copy, Debug, PartialEq, Eq, Structural)]
pub enum Shade {
    Primary,
    /// `Primary`, partly transparent.
    PrimaryDimmed,
    Dark,
    Dark2,
    Dark3,
    Dark4,
    /// Background of a ledger entry in dark mode.
    Charcoal,
    LightText,
    Light,
    Light2,
    Light3,
    Light4,
    DarkText,
    Gray,
    Transparent,
    /// Foreground of a button that destroys something.
    Alert,
}

/// How a container is drawn. `None` leaves a colour to the surroundings.
#[derive(Clone, Copy, Debug, PartialEq, Eq, Structural)]
pub struct ContainerLook {
    pub text_color: Option<Shade>,
    pub background: Option<Shade>,
    pub border_width: u16,
    pub border_color: Shade,
}

/// How a text input is drawn.
#[derive(Clone, Copy, Debug, PartialEq, Eq, Structural)]
pub struct TextInputLook {
    pub background: Shade,
    pub border_width: u16,
    pub border_color: Shade,
}

/// How a horizontal rule is drawn.
#[derive(Clone, Copy, Debug, PartialEq, Eq, Structural)]
pub struct RuleLook {
    pub color: Shade,
    pub width: u16,
    /// Space left free at either end of the rule.
    pub padding: u16,
}

/// How a button is drawn.
#[derive(Clone, Copy, Debug, PartialEq, Eq, Structural)]
pub struct ButtonLook {
    pub background: Shade,
    pub border_radius: u16,
    pub border_width: u16,
    pub border_color: Shade,
    pub text_color: Shade,
}

/// The shade for the mode: `dark` in dark mode, `light` otherwise.
pub open spec fn themed(is_dark_mode: bool, dark: Shade, light: Shade) -> Shade {
    if is_dark_mode {
        dark
    } else {
        light
    }
}

/// Border width for the mode: borders are drawn in light mode only.
pub open spec fn themed_border(is_dark_mode: bool) -> u16 {
    if is_dark_mode {
        0
    } else {
        1
    }
}

/// A container that sets nothing.
pub open spec fn plain_container() -> ContainerLook {
    ContainerLook {
        text_color: None,
        background: None,
        border_width: 0,
        border_color: Shade::Transparent,
    }
}

fn pick(is_dark_mode: bool, dark: Shade, light: Shade) -> (shade: Shade)
    ensures
        shade == themed(is_dark_mode, dark, light),
{
    if is_dark_mode {
        dark
    } else {
        light
    }
}

fn border(is_dark_mode: bool) -> (width: u16)
    ensures
        width == themed_border(is_dark_mode),
{
    if is_dark_mode {
        0
    } else {
        1
    }
}

fn container() -> (look: ContainerLook)
    ensures
        look == plain_container(),
{
    ContainerLook {
        text_color: None,
        background: None,
        border_width: 0,
        border_color: Shade::Transparent,
    }
}

/// The window's background.
#[derive(Clone, Copy, Debug)]
pub struct RootStyle {
    pub is_dark_mode: bool,
}

impl RootStyle {
    pub fn style(&self) -> (look: ContainerLook)
        ensures
            look == (ContainerLook {
                background: Some(themed(self.is_dark_mode, Shade::Dark, Shade::Light)),
                ..plain_container()
            }),
    {
        let mut look = container();
        look.background = Some(pick(self.is_dark_mode, Shade::Dark, Shade::Light));
        look
    }
}

/// Plain text.
#[derive(Clone, Copy, Debug)]
pub struct TextStyle {
    pub is_dark_mode: bool,
}

impl TextStyle {
    pub fn style(&self) -> (look: ContainerLook)
        ensures
            look == (ContainerLook {
                text_color: Some(themed(self.is_dark_mode, Shade::LightText, Shade::DarkText)),
                ..plain_container()
            }),
    {
        let mut look = container();
        look.text_color = Some(pick(self.is_dark_mode, Shade::LightText, Shade::DarkText));
        look
    }
}

/// The three text buffers.
#[derive(Clone, Copy, Debug)]
pub struct TextInputStyle {
    pub is_dark_mode: bool,
}

impl TextInputStyle {
    pub fn active(&self) -> (look: TextInputLook)
        ensures
            look == (TextInputLook {
                background: themed(self.is_dark_mode, Shade::Dark2, Shade::Light),
                border_width: themed_border(self.is_dark_mode),
                border_color: Shade::Dark4,
            }),
    {
        TextInputLook {
            background: pick(self.is_dark_mode, Shade::Dark2, Shade::Light),
            border_width: border(self.is_dark_mode),
            border_color: Shade::Dark4,
        }
    }

    pub fn focused(&self) -> (look: TextInputLook)
        ensures
            look == (TextInputLook {
                background: themed(self.is_dark_mode, Shade::Dark2, Shade::Light2),
                border_width: 1,
                border_color: themed(self.is_dark_mode, Shade::Gray, Shade::Dark4),
            }),
    {
        TextInputLook {
            background: pick(self.is_dark_mode, Shade::Dark2, Shade::Light2),
            border_width: 1,
            border_color: pick(self.is_dark_mode, Shade::Gray, Shade::Dark4),
        }
    }

    pub fn placeholder_color(&self) -> (shade: Shade)
        ensures
            shade == Shade::Gray,
    {
        Shade::Gray
    }

    pub fn value_color(&self) -> (shade: Shade)
        ensures
            shade == themed(self.is_dark_mode, Shade::LightText, Shade::DarkText),
    {
        pick(self.is_dark_mode, Shade::LightText, Shade::DarkText)
    }

    pub fn selection_color(&self) -> (shade: Shade)
        ensures
            shade == themed(self.is_dark_mode, Shade::Gray, Shade::Light4),
    {
        pick(self.is_dark_mode, Shade::Gray, Shade::Light4)
    }
}

/// The rule on either side of the word "or".
#[derive(Clone, Copy, Debug)]
pub struct RuleStyle;

impl RuleStyle {
    pub fn style(&self) -> (look: RuleLook)
        ensures
            look == (RuleLook { color: Shade::Gray, width: 1, padding: 8 }),
    {
        RuleLook { color: Shade::Gray, width: 1, padding: 8 }
    }
}

/// One line of the ledger.
#[derive(Clone, Copy, Debug)]
pub struct TrackedTimeStyle {
    pub is_dark_mode: bool,
}

impl TrackedTimeStyle {
    pub fn style(&self) -> (look: ContainerLook)
        ensures
            look == (ContainerLook {
                background: Some(themed(self.is_dark_mode, Shade::Charcoal, Shade::Light2)),
                ..plain_container()
            }),
    {
        let mut look = container();
        look.background = Some(pick(self.is_dark_mode, Shade::Charcoal, Shade::Light2));
        look
    }
}

/// The position shown at the head of a ledger line.
#[derive(Clone, Copy, Debug)]
pub struct IndexStyle {
    pub is_dark_mode: bool,
}

impl IndexStyle {
    pub fn style(&self) -> (look: ContainerLook)
        ensures
            look == (ContainerLook {
                background: Some(themed(self.is_dark_mode, Shade::PrimaryDimmed, Shade::Primary)),
                ..plain_container()
            }),
    {
        let mut look = container();
        look.background = Some(pick(self.is_dark_mode, Shade::PrimaryDimmed, Shade::Primary));
        look
    }
}

/// The tooltip that shows a whole description.
#[derive(Clone, Copy, Debug)]
pub struct TooltipStyle;

impl TooltipStyle {
    pub fn style(&self) -> (look: ContainerLook)
        ensures
            look == (ContainerLook {
                text_color: Some(Shade::LightText),
                background: Some(Shade::Dark3),
                ..plain_container()
            }),
    {
        let mut look = container();
        look.text_color = Some(Shade::LightText);
        look.background = Some(Shade::Dark3);
        look
    }
}

/// A button. `foreground` overrides the theme's text colour.
#[derive(Clone, Copy, Debug)]
pub struct ButtonStyle {
    pub is_dark_mode: bool,
    pub foreground: Option<Shade>,
}

impl ButtonStyle {
    /// The text colour: the override, or else the theme's.
    pub open spec fn text_shade(&self) -> Shade {
        match self.foreground {
            Some(shade) => shade,
            None => themed(self.is_dark_mode, Shade::LightText, Shade::DarkText),
        }
    }

    /// The button with `background`; nothing else differs between its
    /// three states.
    pub open spec fn look_with(&self, background: Shade) -> ButtonLook {
        ButtonLook {
            background,
            border_radius: 2,
            border_width: themed_border(self.is_dark_mode),
            border_color: Shade::Dark3,
            text_color: self.text_shade(),
        }
    }

    pub fn active(&self) -> (look: ButtonLook)
        ensures
            look == self.look_with(themed(self.is_dark_mode, Shade::Dark2, Shade::Light)),
    {
        let text_color = match self.foreground {
            Some(shade) => shade,
            None => pick(self.is_dark_mode, Shade::LightText, Shade::DarkText),
        };
        ButtonLook {
            background: pick(self.is_dark_mode, Shade::Dark2, Shade::Light),
            border_radius: 2,
            border_width: border(self.is_dark_mode),
            border_color: Shade::Dark3,
            text_color,
        }
    }

    pub fn hovered(&self) -> (look: ButtonLook)
        ensures
            look == self.look_with(themed(self.is_dark_mode, Shade::Dark3, Shade::Light2)),
    {
        let mut look = self.active();
        look.background = pick(self.is_dark_mode, Shade::Dark3, Shade::Light2);
        look
    }

    pub fn pressed(&self) -> (look: ButtonLook)
        ensures
            look == self.look_with(themed(self.is_dark_mode, Shade::Dark4, Shade::Light3)),
    {
        let mut look = self.hovered();
        look.background = pick(self.is_dark_mode, Shade::Dark4, Shade::Light3);
        look
    }
}

} // verus!
