//! Trusted boundary to the strfmt crate: substituting the four named
//! sub-patterns into a whole-line template.

use vstd::prelude::*;

verus! {

/// The text produced by substituting the four sub-patterns for the
/// placeholders `d`, `h`, `s` and `m` of a whole-line template: `None` when
/// the template is rejected (malformed braces, or a placeholder other than
/// those four).
pub uninterp spec fn template_subst(
    template: Seq<char>,
    d: Seq<char>,
    h: Seq<char>,
    s: Seq<char>,
    m: Seq<char>,
) -> Option<Seq<char>>;

/// Relies on strfmt::strfmt with the keys `d`, `h`, `s` and `m`: whether the
/// template is accepted, and the substituted text, depend on the template and
/// the four values alone.
#[verifier::external_body]
pub(crate) fn fill_template(template: &str, d: &str, h: &str, s: &str, m: &str) -> (r: Option<
    String,
>)
    ensures
        r is Some <==> template_subst(template@, d@, h@, s@, m@) is Some,
        r is Some ==> r.unwrap()@ == template_subst(template@, d@, h@, s@, m@).unwrap(),
{
    let mut vars: std::collections::HashMap<String, String> = std::collections::HashMap::new();
    vars.insert("d".to_string(), d.to_string());
    vars.insert("h".to_string(), h.to_string());
    vars.insert("s".to_string(), s.to_string());
    vars.insert("m".to_string(), m.to_string());
    strfmt::strfmt(template, &vars).ok()
}

} // verus!
