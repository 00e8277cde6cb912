//! Interface language: chosen once, Chinese until chosen.
use vstd::prelude::*;

verus! {

#[derive(Clone, Copy, PartialEq, Eq, Structural, Debug)]
pub enum Lang {
    Zh,
    En,
}

/// The process-wide language choice.  The first choice sticks; later ones are ignored.
pub struct LangSetting {
    chosen: Option<Lang>,
}

/// The choice after asking for `lang` when the choice was `chosen`.
pub open spec fn choose_lang(chosen: Option<Lang>, lang: Lang) -> Option<Lang> {
    match chosen {
        Some(l) => Some(l),
        None => Some(lang),
    }
}

/// The language in effect for a choice: Chinese when nothing was chosen.
pub open spec fn lang_of(chosen: Option<Lang>) -> Lang {
    match chosen {
        Some(l) => l,
        None => Lang::Zh,
    }
}

impl View for LangSetting {
    type V = Option<Lang>;

    closed spec fn view(&self) -> Option<Lang> {
        self.chosen
    }
}

impl LangSetting {
    pub fn new() -> (r: Self)
        ensures
            r@ is None,
    {
        LangSetting { chosen: None }
    }

    /// Records `lang` unless a language was already chosen.
    pub fn set_lang(&mut self, lang: Lang)
        ensures
            final(self)@ == choose_lang(old(self)@, lang),
    {
        if self.chosen.is_none() {
            self.chosen = Some(lang);
        }
    }

    /// The language in effect.
    pub fn lang(&self) -> (r: Lang)
        ensures
            r == lang_of(self@),
    {
        match self.chosen {
            Some(l) => l,
            None => Lang::Zh,
        }
    }
}

/// Picks the text for `lang`: English for `En`, Chinese otherwise.
pub fn tr<'a>(lang: Lang, zh: &'a str, en: &'a str) -> (r: &'a str)
    ensures
        r == (if lang == Lang::En { en } else { zh }),
{
    if lang == Lang::En {
        en
    } else {
        zh
    }
}

/// Choosing a language is first-come: once chosen, later choices change nothing,
/// and a fresh setting reads as Chinese.
pub proof fn law_first_language_choice_sticks(chosen: Option<Lang>, a: Lang, b: Lang)
    ensures
        lang_of(None) == Lang::Zh,
        lang_of(choose_lang(None, a)) == a,
        choose_lang(choose_lang(chosen, a), b) == choose_lang(chosen, a),
{
}

} // verus!
