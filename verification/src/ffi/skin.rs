//! The skins that come with the player.

use crate::text::{fits_c, same, CText};
use vstd::prelude::*;

verus! {

/// The style sheet of a skin that comes with the player: "dark" or "light".
/// Nothing for any other name, for none, and for a style sheet that cannot cross.
pub fn sparkamp_skin_template_css(name: &CText, dark: &str, light: &str) -> (r: Option<String>)
    ensures
        match name {
            CText::Text(n) => if n@ == "dark"@ && !dark@.contains('\0') {
                r matches Some(css) && css@ == dark@
            } else if n@ != "dark"@ && n@ == "light"@ && !light@.contains('\0') {
                r matches Some(css) && css@ == light@
            } else {
                r is None
            },
            _ => r is None,
        },
{
    let n = match name {
        CText::Text(n) => n,
        _ => return None,
    };
    let css = if same(n.as_str(), "dark") {
        dark
    } else if same(n.as_str(), "light") {
        light
    } else {
        return None;
    };
    if fits_c(css) {
        Some(css.to_owned())
    } else {
        None
    }
}

} // verus!
