//! The part of the greeter's stylesheet that depends on the settings.

use crate::text;
use vstd::prelude::*;

verus! {

/// The rule that sets the font family, none where no family is asked for.
pub open spec fn font_rule(family: Seq<char>) -> Seq<char> {
    if family.len() == 0 {
        seq![]
    } else {
        "font-family: \""@ + text::escaped(family) + "\";"@
    }
}

/// The rule that sets the font family. The family stands in quotation marks, and
/// those within it are escaped.
pub fn css_font_family(family: &str) -> (r: String)
    ensures
        r@ == font_rule(family@),
{
    if family.is_empty() {
        return String::new();
    }
    let escaped = text::escape(family);
    let head = text::joined("font-family: \"", escaped.as_str());
    text::joined(head.as_str(), "\";")
}

/// The rule names the family in quotation marks, with nothing of it lost: the
/// family without quotation marks and backslashes stands in it as it is. No
/// family asks for no rule.
pub proof fn law_font_rule_names_the_family(family: Seq<char>)
    requires
        forall|i: int| 0 <= i < family.len() ==> family[i] != '"' && family[i] != '\\',
    ensures
        family.len() > 0 ==> font_rule(family) == "font-family: \""@ + family + "\";"@,
        font_rule(seq![]).len() == 0,
{
    lemma_plain_is_not_escaped(family);
}

proof fn lemma_plain_is_not_escaped(s: Seq<char>)
    requires
        forall|i: int| 0 <= i < s.len() ==> s[i] != '"' && s[i] != '\\',
    ensures
        text::escaped(s) == s,
    decreases s.len(),
{
    if s.len() == 0 {
        assert(text::escaped(s) =~= s);
    } else {
        let rest = s.skip(1);
        assert forall|i: int| 0 <= i < rest.len() implies rest[i] != '"' && rest[i] != '\\' by {
            assert(rest[i] == s[i + 1]);
        }
        lemma_plain_is_not_escaped(rest);
        assert(seq![s[0]] + rest =~= s);
    }
}

} // verus!
