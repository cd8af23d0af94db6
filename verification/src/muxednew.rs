//! The single-template generator: a new project file from the default
//! template with the file's own path written into it.

use vstd::prelude::*;
use crate::text::{replace_all, replace_str};

verus! {

/// The template the generator fills.
pub const TEMPLATE: &'static str = crate::new::DEFAULT_TEMPLATE;

/// The template with every `{file}` replaced by the path of the new file.
pub fn modified_template(template: &str, file: &str) -> (r: String)
    ensures
        r@ == replace_all(template@, "{file}"@, file@),
{
    replace_str(template, "{file}", file)
}

} // verus!
