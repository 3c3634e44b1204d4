//! Real product logos, embedded as base64 PNG so the cards carry authentic
//! branding with no runtime dependency.
use vstd::prelude::*;
use crate::text::same_text;

verus! {

/// The base64 PNG logos of the projects that have one.
pub struct Logos {
    pub dup: String,
    pub cavemode: String,
    pub cattype: String,
    pub devpon: String,
}

/// The logo of a project, if we have one.
pub open spec fn logo_of(logos: Logos, name: Seq<char>) -> Option<Seq<char>> {
    if name == "dup"@ {
        Some(logos.dup@)
    } else if name == "cavemode"@ {
        Some(logos.cavemode@)
    } else if name == "cattype"@ {
        Some(logos.cattype@)
    } else if name == "devpon"@ {
        Some(logos.devpon@)
    } else {
        None
    }
}

/// Base64 PNG for a project's logo, if we have one.
pub fn logo<'a>(logos: &'a Logos, name: &str) -> (res: Option<&'a str>)
    ensures
        match res {
            Some(s) => logo_of(*logos, name@) == Some(s@),
            None => logo_of(*logos, name@) is None,
        },
{
    if same_text(name, "dup") {
        Some(logos.dup.as_str())
    } else if same_text(name, "cavemode") {
        Some(logos.cavemode.as_str())
    } else if same_text(name, "cattype") {
        Some(logos.cattype.as_str())
    } else if same_text(name, "devpon") {
        Some(logos.devpon.as_str())
    } else {
        None
    }
}

} // verus!

verus! {

/// Each project with a logo gets its own logo field, whatever the other
/// fields hold; any other name has no logo.
pub proof fn lemma_logo_own_field(logos: Logos, name: Seq<char>)
    ensures
        name == "dup"@ ==> logo_of(logos, name) == Some(logos.dup@),
        name == "cavemode"@ ==> logo_of(logos, name) == Some(logos.cavemode@),
        name == "cattype"@ ==> logo_of(logos, name) == Some(logos.cattype@),
        name == "devpon"@ ==> logo_of(logos, name) == Some(logos.devpon@),
        name != "dup"@ && name != "cavemode"@ && name != "cattype"@ && name != "devpon"@
            ==> logo_of(logos, name) is None,
{
    reveal_strlit("dup");
    reveal_strlit("cavemode");
    reveal_strlit("cattype");
    reveal_strlit("devpon");
    assert("dup"@.len() == 3 && "cavemode"@.len() == 8 && "cattype"@.len() == 7 && "devpon"@.len() == 6);
    assert("dup"@ != "cavemode"@ && "dup"@ != "cattype"@ && "dup"@ != "devpon"@);
    assert("cavemode"@ != "cattype"@ && "cavemode"@ != "devpon"@ && "cattype"@ != "devpon"@);
}

/// Two sets of logos that agree on a project's own field give that project
/// the same logo.
pub proof fn lemma_logo_independent(a: Logos, b: Logos, name: Seq<char>)
    requires
        name == "dup"@ ==> a.dup@ == b.dup@,
        name == "cavemode"@ ==> a.cavemode@ == b.cavemode@,
        name == "cattype"@ ==> a.cattype@ == b.cattype@,
        name == "devpon"@ ==> a.devpon@ == b.devpon@,
    ensures
        logo_of(a, name) == logo_of(b, name),
{
    lemma_logo_own_field(a, name);
    lemma_logo_own_field(b, name);
}

} // verus!
