//! Interface language: the supported codes, the names shown for them,
//! and the language picked from the system locale on first start.
use vstd::prelude::*;
use crate::text;
use crate::text::{lowercase, starts_with};

verus! {

pub open spec fn sanitize_language_spec(code: Seq<char>) -> Seq<char> {
    if code == "ru"@ {
        "ru"@
    } else {
        "en"@
    }
}

/// Stored language value to a supported code: `ru` stays, anything else
/// is English.
pub fn sanitize_language(code: &str) -> (r: String)
    ensures
        r@ == sanitize_language_spec(code@),
{
    if text::str_eq(code, "ru") {
        "ru".to_string()
    } else {
        "en".to_string()
    }
}

pub open spec fn display_name_spec(code: Seq<char>) -> Seq<char> {
    if code == "ru"@ {
        "Русский"@
    } else {
        "English"@
    }
}

/// Name of a language in the Settings list.
pub fn display_name(code: &str) -> (r: String)
    ensures
        r@ == display_name_spec(code@),
{
    if text::str_eq(code, "ru") {
        "Русский".to_string()
    } else {
        "English".to_string()
    }
}

pub open spec fn code_for_display_spec(label: Seq<char>) -> Seq<char> {
    if label == "Русский"@ {
        "ru"@
    } else {
        "en"@
    }
}

/// Language code of a name of the Settings list (English for anything
/// unknown).
pub fn code_for_display(label: &str) -> (r: String)
    ensures
        r@ == code_for_display_spec(label@),
{
    if text::str_eq(label, "Русский") {
        "ru".to_string()
    } else {
        "en".to_string()
    }
}

/// Choosing a language by its shown name gives back its code: the code
/// any stored value stands for.
pub proof fn law_display_roundtrip(code: Seq<char>)
    ensures
        code_for_display_spec(display_name_spec(code)) == sanitize_language_spec(code),
{
    reveal_strlit("English");
    reveal_strlit("Русский");
    assert("English"@[0] != "Русский"@[0]);
}

/// A sanitized code is one of the two supported ones and stays as it is.
pub proof fn law_sanitize_language(code: Seq<char>)
    ensures
        sanitize_language_spec(code) == "ru"@ || sanitize_language_spec(code) == "en"@,
        sanitize_language_spec(sanitize_language_spec(code)) == sanitize_language_spec(code),
{
    reveal_strlit("en");
    reveal_strlit("ru");
    assert("en"@[0] != "ru"@[0]);
}

pub open spec fn language_of_locale_spec(locale: Option<Seq<char>>) -> Seq<char> {
    let l = lowercase(
        match locale {
            Some(s) => s,
            None => Seq::empty(),
        },
    );
    if starts_with(l, "ru"@) {
        "ru"@
    } else {
        "en"@
    }
}

/// Language for a system locale: Russian when it starts with `ru` (any
/// case), English for anything else or no locale.
pub fn language_of_locale(locale: Option<String>) -> (r: String)
    ensures
        r@ == language_of_locale_spec(match locale { Some(s) => Some(s@), None => None }),
        match locale {
            Some(s) => text::all_ascii(s@) ==> (r@ == "ru"@ <==> starts_with(text::ascii_lower(s@), "ru"@)),
            None => r@ == "en"@,
        },
{
    proof {
        reveal_strlit("ru");
        reveal_strlit("en");
        assert("ru"@[0] != "en"@[0]);
    }
    let s = match locale {
        Some(s) => s,
        None => String::new(),
    };
    let l = text::to_lowercase(s.as_str());
    let lc = text::chars_of(l.as_str());
    if text::chars_starts_with(&lc, &text::chars_of("ru")) {
        "ru".to_string()
    } else {
        "en".to_string()
    }
}

/// `sys_locale::get_locale`: the preferred locale of the system, when it
/// tells one. It depends on the machine, so nothing is claimed of it.
#[verifier::external_body]
fn system_locale() -> (r: Option<String>) {
    sys_locale::get_locale()
}

/// Language of the system (see `language_of_locale`).
pub fn detect_system_language() -> (r: String)
    ensures
        r@ == "ru"@ || r@ == "en"@,
{
    let locale = system_locale();
    language_of_locale(locale)
}

/// Language at start: a stored value always wins (made a supported
/// code); only without one is the system locale asked.
pub fn startup_language(stored: Option<&str>) -> (r: String)
    ensures
        match stored {
            Some(code) => r@ == sanitize_language_spec(code@),
            None => r@ == "ru"@ || r@ == "en"@,
        },
{
    match stored {
        Some(code) => sanitize_language(code),
        None => detect_system_language(),
    }
}

} // verus!
