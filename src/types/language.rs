use vstd::prelude::*;

verus! {

/// Declared so that parse errors can be handed back as `anyhow::Error`.
#[verifier::external_type_specification]
#[verifier::external_body]
pub struct ExAnyhowError(anyhow::Error);

/// A supported locale.
#[allow(non_camel_case_types)]
#[derive(Debug, Clone, Copy, PartialEq, Eq, Structural)]
pub enum Language {
    en_US,
    fe_FR,
    es_ES,
    de_DE,
    ja_JP,
}

impl Language {
    /// The tag that names this locale in text.
    pub open spec fn tag(self) -> Seq<char> {
        match self {
            Language::en_US => "en_US"@,
            Language::fe_FR => "fe_FR"@,
            Language::es_ES => "es_ES"@,
            Language::de_DE => "de_DE"@,
            Language::ja_JP => "ja_JP"@,
        }
    }

    /// The locale whose tag is exactly `s`, if any.
    pub open spec fn of_tag(s: Seq<char>) -> Option<Language> {
        if s == "en_US"@ {
            Some(Language::en_US)
        } else if s == "fe_FR"@ {
            Some(Language::fe_FR)
        } else if s == "es_ES"@ {
            Some(Language::es_ES)
        } else if s == "de_DE"@ {
            Some(Language::de_DE)
        } else if s == "ja_JP"@ {
            Some(Language::ja_JP)
        } else {
            None
        }
    }

    /// Reads a locale from its tag. Any other text is an error.
    pub fn from_tag(string: &str) -> (r: Result<Language, anyhow::Error>)
        ensures
            r is Ok <==> Language::of_tag(string@) is Some,
            r matches Ok(l) ==> Language::of_tag(string@) == Some(l) && l.tag() == string@,
    {
        proof {
            reveal_strlit("en_US");
            reveal_strlit("fe_FR");
            reveal_strlit("es_ES");
            reveal_strlit("de_DE");
            reveal_strlit("ja_JP");
        }
        let s = string.to_owned();
        if s.eq(&"en_US".to_owned()) {
            Ok(Language::en_US)
        } else if s.eq(&"fe_FR".to_owned()) {
            Ok(Language::fe_FR)
        } else if s.eq(&"es_ES".to_owned()) {
            Ok(Language::es_ES)
        } else if s.eq(&"de_DE".to_owned()) {
            Ok(Language::de_DE)
        } else if s.eq(&"ja_JP".to_owned()) {
            Ok(Language::ja_JP)
        } else {
            Err(invalid_input(string))
        }
    }
}

/// Relies on `anyhow::Error::msg`: an error that carries the given message.
#[verifier::external_body]
fn invalid_input(string: &str) -> anyhow::Error {
    anyhow::Error::msg(format!("Invalid input: {}", string))
}

impl std::str::FromStr for Language {
    type Err = anyhow::Error;

    fn from_str(string: &str) -> Result<Self, Self::Err> {
        Language::from_tag(string)
    }
}

} // verus!
