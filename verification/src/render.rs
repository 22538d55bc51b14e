//! A scheme as text: one `$name=#rrggbb` line for each role that is written out.

use crate::color::{hex_text, Argb};
use crate::scheme::Scheme;
use vstd::prelude::*;
use vstd::string::*;

verus! {

/// One line of the text: the label, the colour in hexadecimal, a line feed.
pub open spec fn entry(label: Seq<char>, color: Argb) -> Seq<char> {
    label + hex_text(color) + "\n"@
}

/// The text of a scheme: the surfaces and accents first, then, after an empty line,
/// what is drawn on them.
pub open spec fn scheme_text(scheme: Scheme) -> Seq<char> {
    Seq::<char>::empty()
        + entry("$background="@, scheme.background)
        + entry("$onBackground="@, scheme.on_background)
        + "\n"@
        + entry("$primary="@, scheme.primary)
        + entry("$secondary="@, scheme.secondary)
        + entry("$tertiary="@, scheme.tertiary)
        + entry("$error="@, scheme.error)
        + entry("$primaryContainer="@, scheme.primary_container)
        + entry("$secondaryContainer="@, scheme.secondary_container)
        + entry("$tertiaryContainer="@, scheme.tertiary_container)
        + entry("$errorContainer="@, scheme.error_container)
        + entry("$surfaceDim="@, scheme.surface_dim)
        + entry("$surface="@, scheme.surface)
        + entry("$surfaceBright="@, scheme.surface_bright)
        + entry("$surfaceContainer="@, scheme.surface_container)
        + entry("$outline="@, scheme.outline)
        + entry("$shadow="@, scheme.shadow)
        + entry("$inversePrimary="@, scheme.inverse_primary)
        + entry("$inverseSurface="@, scheme.inverse_surface)
        + "\n"@
        + entry("$onPrimary="@, scheme.on_primary)
        + entry("$onSecondary="@, scheme.on_secondary)
        + entry("$onTertiary="@, scheme.on_tertiary)
        + entry("$onError="@, scheme.on_error)
        + entry("$onPrimaryContainer="@, scheme.on_primary_container)
        + entry("$onSecondaryContainer="@, scheme.on_secondary_container)
        + entry("$onTertiaryContainer="@, scheme.on_tertiary_container)
        + entry("$onErrorContainer="@, scheme.on_error_container)
        + entry("$onSurface="@, scheme.on_surface)
        + entry("$scrim="@, scheme.scrim)
}

/// Appends one line.
fn append_entry(text: &mut String, label: &str, color: Argb)
    ensures
        final(text)@ == old(text)@ + entry(label@, color),
{
    let hex = color.to_hex();
    text.append(label);
    text.append(hex.as_str());
    text.append("\n");
    assert(text@ =~= old(text)@ + entry(label@, color));
}

/// Writes a scheme out as text.
pub fn render_scheme(scheme: &Scheme) -> (text: String)
    ensures
        text@ == scheme_text(*scheme),
{
    let mut text = String::new();
    append_entry(&mut text, "$background=", scheme.background);
    append_entry(&mut text, "$onBackground=", scheme.on_background);
    text.append("\n");
    append_entry(&mut text, "$primary=", scheme.primary);
    append_entry(&mut text, "$secondary=", scheme.secondary);
    append_entry(&mut text, "$tertiary=", scheme.tertiary);
    append_entry(&mut text, "$error=", scheme.error);
    append_entry(&mut text, "$primaryContainer=", scheme.primary_container);
    append_entry(&mut text, "$secondaryContainer=", scheme.secondary_container);
    append_entry(&mut text, "$tertiaryContainer=", scheme.tertiary_container);
    append_entry(&mut text, "$errorContainer=", scheme.error_container);
    append_entry(&mut text, "$surfaceDim=", scheme.surface_dim);
    append_entry(&mut text, "$surface=", scheme.surface);
    append_entry(&mut text, "$surfaceBright=", scheme.surface_bright);
    append_entry(&mut text, "$surfaceContainer=", scheme.surface_container);
    append_entry(&mut text, "$outline=", scheme.outline);
    append_entry(&mut text, "$shadow=", scheme.shadow);
    append_entry(&mut text, "$inversePrimary=", scheme.inverse_primary);
    append_entry(&mut text, "$inverseSurface=", scheme.inverse_surface);
    text.append("\n");
    append_entry(&mut text, "$onPrimary=", scheme.on_primary);
    append_entry(&mut text, "$onSecondary=", scheme.on_secondary);
    append_entry(&mut text, "$onTertiary=", scheme.on_tertiary);
    append_entry(&mut text, "$onError=", scheme.on_error);
    append_entry(&mut text, "$onPrimaryContainer=", scheme.on_primary_container);
    append_entry(&mut text, "$onSecondaryContainer=", scheme.on_secondary_container);
    append_entry(&mut text, "$onTertiaryContainer=", scheme.on_tertiary_container);
    append_entry(&mut text, "$onErrorContainer=", scheme.on_error_container);
    append_entry(&mut text, "$onSurface=", scheme.on_surface);
    append_entry(&mut text, "$scrim=", scheme.scrim);
    text
}

} // verus!
