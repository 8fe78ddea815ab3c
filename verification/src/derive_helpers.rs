//! The rules behind a few derive and attribute helpers: how an option's
//! message is mapped, what a missing count defaults to, and which helper
//! attributes are stripped from the items they annotate.

use vstd::prelude::*;
use crate::text::same_text;

verus! {

/// What `str::to_uppercase` gives for a text: each character replaced by its
/// Unicode upper-case mapping.
pub uninterp spec fn unicode_uppercase(s: Seq<char>) -> Seq<char>;

/// `str::to_uppercase` returns the Unicode upper-case form of the text; the
/// mapping tables are not restated here.
pub assume_specification[ str::to_uppercase ](s: &str) -> (r: String)
    ensures
        r@ == unicode_uppercase(s@),
;

/// The message of a derive option, mapped to upper case.
pub fn uppercase_string(s: String) -> (r: String)
    ensures
        r@ == unicode_uppercase(s@),
{
    s.as_str().to_uppercase()
}

/// The count of a derive option when none is given: 1.
pub fn default_count() -> (n: usize)
    ensures
        n == 1,
{
    1
}

/// Whether an attribute named `name` is a field helper (`field_info` or
/// `field_info_2`), stripped from fields once read.
pub fn is_field_helper(name: &str) -> (r: bool)
    ensures
        r == (name@ == "field_info"@ || name@ == "field_info_2"@),
{
    same_text(name, "field_info") || same_text(name, "field_info_2")
}

/// Whether an attribute named `name` is a variant helper (`variant_info` or
/// `variant_info_2`), stripped from enum variants once read.
pub fn is_variant_helper(name: &str) -> (r: bool)
    ensures
        r == (name@ == "variant_info"@ || name@ == "variant_info_2"@),
{
    same_text(name, "variant_info") || same_text(name, "variant_info_2")
}

/// Whether an attribute named `name` is the type parameter helper
/// (`my_type_attr`), stripped from type parameters once read.
pub fn is_type_param_helper(name: &str) -> (r: bool)
    ensures
        r == (name@ == "my_type_attr"@),
{
    same_text(name, "my_type_attr")
}

/// Where a helper attribute stands, which decides the helper names stripped.
#[derive(Debug, Clone, Copy, PartialEq, Eq, Structural)]
pub enum HelperKind {
    Field,
    Variant,
    TypeParam,
}

/// Whether an attribute named `name` is a helper of kind `kind`.
pub open spec fn is_helper_name(name: Seq<char>, kind: HelperKind) -> bool {
    match kind {
        HelperKind::Field => name == "field_info"@ || name == "field_info_2"@,
        HelperKind::Variant => name == "variant_info"@ || name == "variant_info_2"@,
        HelperKind::TypeParam => name == "my_type_attr"@,
    }
}

/// Which attributes of one field, variant or type parameter are kept when its
/// helper attributes are stripped. Each attribute is given by the name of its
/// path when that path is a single identifier, `None` otherwise; it is kept
/// unless it is named as a helper of `kind`.
pub fn kept_attrs(names: &Vec<Option<String>>, kind: HelperKind) -> (keep: Vec<bool>)
    ensures
        keep@.len() == names@.len(),
        forall|i: int| 0 <= i < names@.len() ==> #[trigger] keep@[i] == !(names@[i] matches Some(
            n,
        ) && is_helper_name(n@, kind)),
        kind == HelperKind::Field ==> forall|i: int| 0 <= i < names@.len() ==> #[trigger] keep@[i]
            == !(names@[i] matches Some(n) && (n@ == "field_info"@ || n@ == "field_info_2"@)),
        kind == HelperKind::Variant ==> forall|i: int| 0 <= i < names@.len() ==> #[trigger] keep@[i]
            == !(names@[i] matches Some(n) && (n@ == "variant_info"@ || n@ == "variant_info_2"@)),
        kind == HelperKind::TypeParam ==> forall|i: int| 0 <= i < names@.len() ==> #[trigger] keep@[i]
            == !(names@[i] matches Some(n) && n@ == "my_type_attr"@),
{
    let mut keep: Vec<bool> = Vec::new();
    let mut i: usize = 0;
    while i < names.len()
        invariant
            i <= names@.len(),
            keep@.len() == i,
            forall|j: int| 0 <= j < i ==> #[trigger] keep@[j] == !(names@[j] matches Some(n)
                && is_helper_name(n@, kind)),
        decreases names@.len() - i,
    {
        let helper = match &names[i] {
            Some(n) => match kind {
                HelperKind::Field => is_field_helper(n.as_str()),
                HelperKind::Variant => is_variant_helper(n.as_str()),
                HelperKind::TypeParam => is_type_param_helper(n.as_str()),
            },
            None => false,
        };
        keep.push(!helper);
        i = i + 1;
    }
    keep
}

} // verus!
