//! Quick Accent: the accented variants of a letter in the chosen languages,
//! the settings, and the accent picker's selection.
use vstd::prelude::*;
use crate::text::{chars_of, decimal, join, owned, push_all, push_char, push_decimal, same_text, views};

verus! {

/// The accented variants of the lower-case `letter` in the language `lang`
/// (a two-letter code), if the language has any for it.
pub open spec fn lang_accents(lang: Seq<char>, letter: char) -> Option<Seq<char>> {
    if lang.len() != 2 {
        None
    } else {
        match (lang[0], lang[1], letter) {
            ('f', 'r', 'a') => Some(seq!['à', 'â', 'æ']),
            ('f', 'r', 'c') => Some(seq!['ç']),
            ('f', 'r', 'e') => Some(seq!['é', 'è', 'ê', 'ë']),
            ('f', 'r', 'i') => Some(seq!['î', 'ï']),
            ('f', 'r', 'o') => Some(seq!['ô', 'œ']),
            ('f', 'r', 'u') => Some(seq!['ù', 'û', 'ü']),
            ('f', 'r', 'y') => Some(seq!['ÿ']),
            ('e', 's', 'a') => Some(seq!['á']),
            ('e', 's', 'e') => Some(seq!['é']),
            ('e', 's', 'i') => Some(seq!['í']),
            ('e', 's', 'n') => Some(seq!['ñ']),
            ('e', 's', 'o') => Some(seq!['ó']),
            ('e', 's', 'u') => Some(seq!['ú', 'ü']),
            ('d', 'e', 'a') => Some(seq!['ä']),
            ('d', 'e', 'o') => Some(seq!['ö']),
            ('d', 'e', 'u') => Some(seq!['ü']),
            ('d', 'e', 's') => Some(seq!['ß']),
            ('p', 't', 'a') => Some(seq!['á', 'â', 'ã', 'à']),
            ('p', 't', 'c') => Some(seq!['ç']),
            ('p', 't', 'e') => Some(seq!['é', 'ê']),
            ('p', 't', 'i') => Some(seq!['í']),
            ('p', 't', 'o') => Some(seq!['ó', 'ô', 'õ']),
            ('p', 't', 'u') => Some(seq!['ú']),
            ('i', 't', 'a') => Some(seq!['à']),
            ('i', 't', 'e') => Some(seq!['è', 'é']),
            ('i', 't', 'i') => Some(seq!['ì', 'í']),
            ('i', 't', 'o') => Some(seq!['ò', 'ó']),
            ('i', 't', 'u') => Some(seq!['ù']),
            ('n', 'l', 'a') => Some(seq!['á', 'ä']),
            ('n', 'l', 'e') => Some(seq!['é', 'ë']),
            ('n', 'l', 'i') => Some(seq!['í', 'ï']),
            ('n', 'l', 'o') => Some(seq!['ó', 'ö']),
            ('n', 'l', 'u') => Some(seq!['ú', 'ü']),
            ('s', 'v', 'a') => Some(seq!['å', 'ä']),
            ('s', 'v', 'o') => Some(seq!['ö']),
            ('n', 'o', 'a') => Some(seq!['å', 'æ']),
            ('d', 'a', 'a') => Some(seq!['å', 'æ']),
            ('n', 'o', 'o') => Some(seq!['ø']),
            ('d', 'a', 'o') => Some(seq!['ø']),
            ('p', 'l', 'a') => Some(seq!['ą']),
            ('p', 'l', 'c') => Some(seq!['ć']),
            ('p', 'l', 'e') => Some(seq!['ę']),
            ('p', 'l', 'l') => Some(seq!['ł']),
            ('p', 'l', 'n') => Some(seq!['ń']),
            ('p', 'l', 'o') => Some(seq!['ó']),
            ('p', 'l', 's') => Some(seq!['ś']),
            ('p', 'l', 'z') => Some(seq!['ź', 'ż']),
            ('t', 'r', 'c') => Some(seq!['ç']),
            ('t', 'r', 'g') => Some(seq!['ğ']),
            ('t', 'r', 'i') => Some(seq!['ı', 'İ']),
            ('t', 'r', 'o') => Some(seq!['ö']),
            ('t', 'r', 's') => Some(seq!['ş']),
            ('t', 'r', 'u') => Some(seq!['ü']),
            ('r', 'o', 'a') => Some(seq!['ă', 'â']),
            ('r', 'o', 'i') => Some(seq!['î']),
            ('r', 'o', 's') => Some(seq!['ș']),
            ('r', 'o', 't') => Some(seq!['ț']),
            ('c', 's', 'a') => Some(seq!['á']),
            ('c', 's', 'c') => Some(seq!['č']),
            ('c', 's', 'd') => Some(seq!['ď']),
            ('c', 's', 'e') => Some(seq!['é', 'ě']),
            ('c', 's', 'i') => Some(seq!['í']),
            ('c', 's', 'n') => Some(seq!['ň']),
            ('c', 's', 'o') => Some(seq!['ó']),
            ('c', 's', 'r') => Some(seq!['ř']),
            ('c', 's', 's') => Some(seq!['š']),
            ('c', 's', 't') => Some(seq!['ť']),
            ('c', 's', 'u') => Some(seq!['ú', 'ů']),
            ('c', 's', 'y') => Some(seq!['ý']),
            ('c', 's', 'z') => Some(seq!['ž']),
            ('h', 'u', 'a') => Some(seq!['á']),
            ('h', 'u', 'e') => Some(seq!['é']),
            ('h', 'u', 'i') => Some(seq!['í']),
            ('h', 'u', 'o') => Some(seq!['ó', 'ö', 'ő']),
            ('h', 'u', 'u') => Some(seq!['ú', 'ü', 'ű']),
            _ => None,
        }
    }
}

/// French (`fr`) offers accents for 'a', 'c', 'e', 'i', 'o', 'u', 'y' only, these exactly.
pub proof fn law_accents_fr(c: char)
    ensures
        lang_accents(seq!['f', 'r'], 'a') == Some(seq!['à', 'â', 'æ']),
        lang_accents(seq!['f', 'r'], 'c') == Some(seq!['ç']),
        lang_accents(seq!['f', 'r'], 'e') == Some(seq!['é', 'è', 'ê', 'ë']),
        lang_accents(seq!['f', 'r'], 'i') == Some(seq!['î', 'ï']),
        lang_accents(seq!['f', 'r'], 'o') == Some(seq!['ô', 'œ']),
        lang_accents(seq!['f', 'r'], 'u') == Some(seq!['ù', 'û', 'ü']),
        lang_accents(seq!['f', 'r'], 'y') == Some(seq!['ÿ']),
        c != 'a' && c != 'c' && c != 'e' && c != 'i' && c != 'o' && c != 'u' && c != 'y' ==> lang_accents(seq!['f', 'r'], c) is None,
{
}

/// Spanish (`es`) offers accents for 'a', 'e', 'i', 'n', 'o', 'u' only, these exactly.
pub proof fn law_accents_es(c: char)
    ensures
        lang_accents(seq!['e', 's'], 'a') == Some(seq!['á']),
        lang_accents(seq!['e', 's'], 'e') == Some(seq!['é']),
        lang_accents(seq!['e', 's'], 'i') == Some(seq!['í']),
        lang_accents(seq!['e', 's'], 'n') == Some(seq!['ñ']),
        lang_accents(seq!['e', 's'], 'o') == Some(seq!['ó']),
        lang_accents(seq!['e', 's'], 'u') == Some(seq!['ú', 'ü']),
        c != 'a' && c != 'e' && c != 'i' && c != 'n' && c != 'o' && c != 'u' ==> lang_accents(seq!['e', 's'], c) is None,
{
}

/// German (`de`) offers accents for 'a', 'o', 'u', 's' only, these exactly.
pub proof fn law_accents_de(c: char)
    ensures
        lang_accents(seq!['d', 'e'], 'a') == Some(seq!['ä']),
        lang_accents(seq!['d', 'e'], 'o') == Some(seq!['ö']),
        lang_accents(seq!['d', 'e'], 'u') == Some(seq!['ü']),
        lang_accents(seq!['d', 'e'], 's') == Some(seq!['ß']),
        c != 'a' && c != 'o' && c != 'u' && c != 's' ==> lang_accents(seq!['d', 'e'], c) is None,
{
}

/// Portuguese (`pt`) offers accents for 'a', 'c', 'e', 'i', 'o', 'u' only, these exactly.
pub proof fn law_accents_pt(c: char)
    ensures
        lang_accents(seq!['p', 't'], 'a') == Some(seq!['á', 'â', 'ã', 'à']),
        lang_accents(seq!['p', 't'], 'c') == Some(seq!['ç']),
        lang_accents(seq!['p', 't'], 'e') == Some(seq!['é', 'ê']),
        lang_accents(seq!['p', 't'], 'i') == Some(seq!['í']),
        lang_accents(seq!['p', 't'], 'o') == Some(seq!['ó', 'ô', 'õ']),
        lang_accents(seq!['p', 't'], 'u') == Some(seq!['ú']),
        c != 'a' && c != 'c' && c != 'e' && c != 'i' && c != 'o' && c != 'u' ==> lang_accents(seq!['p', 't'], c) is None,
{
}

/// Italian (`it`) offers accents for 'a', 'e', 'i', 'o', 'u' only, these exactly.
pub proof fn law_accents_it(c: char)
    ensures
        lang_accents(seq!['i', 't'], 'a') == Some(seq!['à']),
        lang_accents(seq!['i', 't'], 'e') == Some(seq!['è', 'é']),
        lang_accents(seq!['i', 't'], 'i') == Some(seq!['ì', 'í']),
        lang_accents(seq!['i', 't'], 'o') == Some(seq!['ò', 'ó']),
        lang_accents(seq!['i', 't'], 'u') == Some(seq!['ù']),
        c != 'a' && c != 'e' && c != 'i' && c != 'o' && c != 'u' ==> lang_accents(seq!['i', 't'], c) is None,
{
}

/// Dutch (`nl`) offers accents for 'a', 'e', 'i', 'o', 'u' only, these exactly.
pub proof fn law_accents_nl(c: char)
    ensures
        lang_accents(seq!['n', 'l'], 'a') == Some(seq!['á', 'ä']),
        lang_accents(seq!['n', 'l'], 'e') == Some(seq!['é', 'ë']),
        lang_accents(seq!['n', 'l'], 'i') == Some(seq!['í', 'ï']),
        lang_accents(seq!['n', 'l'], 'o') == Some(seq!['ó', 'ö']),
        lang_accents(seq!['n', 'l'], 'u') == Some(seq!['ú', 'ü']),
        c != 'a' && c != 'e' && c != 'i' && c != 'o' && c != 'u' ==> lang_accents(seq!['n', 'l'], c) is None,
{
}

/// Swedish (`sv`) offers accents for 'a', 'o' only, these exactly.
pub proof fn law_accents_sv(c: char)
    ensures
        lang_accents(seq!['s', 'v'], 'a') == Some(seq!['å', 'ä']),
        lang_accents(seq!['s', 'v'], 'o') == Some(seq!['ö']),
        c != 'a' && c != 'o' ==> lang_accents(seq!['s', 'v'], c) is None,
{
}

/// Norwegian (`no`) offers accents for 'a', 'o' only, these exactly.
pub proof fn law_accents_no(c: char)
    ensures
        lang_accents(seq!['n', 'o'], 'a') == Some(seq!['å', 'æ']),
        lang_accents(seq!['n', 'o'], 'o') == Some(seq!['ø']),
        c != 'a' && c != 'o' ==> lang_accents(seq!['n', 'o'], c) is None,
{
}

/// Danish (`da`) offers accents for 'a', 'o' only, these exactly.
pub proof fn law_accents_da(c: char)
    ensures
        lang_accents(seq!['d', 'a'], 'a') == Some(seq!['å', 'æ']),
        lang_accents(seq!['d', 'a'], 'o') == Some(seq!['ø']),
        c != 'a' && c != 'o' ==> lang_accents(seq!['d', 'a'], c) is None,
{
}

/// Polish (`pl`) offers accents for 'a', 'c', 'e', 'l', 'n', 'o', 's', 'z' only, these exactly.
pub proof fn law_accents_pl(c: char)
    ensures
        lang_accents(seq!['p', 'l'], 'a') == Some(seq!['ą']),
        lang_accents(seq!['p', 'l'], 'c') == Some(seq!['ć']),
        lang_accents(seq!['p', 'l'], 'e') == Some(seq!['ę']),
        lang_accents(seq!['p', 'l'], 'l') == Some(seq!['ł']),
        lang_accents(seq!['p', 'l'], 'n') == Some(seq!['ń']),
        lang_accents(seq!['p', 'l'], 'o') == Some(seq!['ó']),
        lang_accents(seq!['p', 'l'], 's') == Some(seq!['ś']),
        lang_accents(seq!['p', 'l'], 'z') == Some(seq!['ź', 'ż']),
        c != 'a' && c != 'c' && c != 'e' && c != 'l' && c != 'n' && c != 'o' && c != 's' && c != 'z' ==> lang_accents(seq!['p', 'l'], c) is None,
{
}

/// Turkish (`tr`) offers accents for 'c', 'g', 'i', 'o', 's', 'u' only, these exactly.
pub proof fn law_accents_tr(c: char)
    ensures
        lang_accents(seq!['t', 'r'], 'c') == Some(seq!['ç']),
        lang_accents(seq!['t', 'r'], 'g') == Some(seq!['ğ']),
        lang_accents(seq!['t', 'r'], 'i') == Some(seq!['ı', 'İ']),
        lang_accents(seq!['t', 'r'], 'o') == Some(seq!['ö']),
        lang_accents(seq!['t', 'r'], 's') == Some(seq!['ş']),
        lang_accents(seq!['t', 'r'], 'u') == Some(seq!['ü']),
        c != 'c' && c != 'g' && c != 'i' && c != 'o' && c != 's' && c != 'u' ==> lang_accents(seq!['t', 'r'], c) is None,
{
}

/// Romanian (`ro`) offers accents for 'a', 'i', 's', 't' only, these exactly.
pub proof fn law_accents_ro(c: char)
    ensures
        lang_accents(seq!['r', 'o'], 'a') == Some(seq!['ă', 'â']),
        lang_accents(seq!['r', 'o'], 'i') == Some(seq!['î']),
        lang_accents(seq!['r', 'o'], 's') == Some(seq!['ș']),
        lang_accents(seq!['r', 'o'], 't') == Some(seq!['ț']),
        c != 'a' && c != 'i' && c != 's' && c != 't' ==> lang_accents(seq!['r', 'o'], c) is None,
{
}

/// Czech (`cs`) offers accents for 'a', 'c', 'd', 'e', 'i', 'n', 'o', 'r', 's', 't', 'u', 'y', 'z' only, these exactly.
pub proof fn law_accents_cs(c: char)
    ensures
        lang_accents(seq!['c', 's'], 'a') == Some(seq!['á']),
        lang_accents(seq!['c', 's'], 'c') == Some(seq!['č']),
        lang_accents(seq!['c', 's'], 'd') == Some(seq!['ď']),
        lang_accents(seq!['c', 's'], 'e') == Some(seq!['é', 'ě']),
        lang_accents(seq!['c', 's'], 'i') == Some(seq!['í']),
        lang_accents(seq!['c', 's'], 'n') == Some(seq!['ň']),
        lang_accents(seq!['c', 's'], 'o') == Some(seq!['ó']),
        lang_accents(seq!['c', 's'], 'r') == Some(seq!['ř']),
        lang_accents(seq!['c', 's'], 's') == Some(seq!['š']),
        lang_accents(seq!['c', 's'], 't') == Some(seq!['ť']),
        lang_accents(seq!['c', 's'], 'u') == Some(seq!['ú', 'ů']),
        lang_accents(seq!['c', 's'], 'y') == Some(seq!['ý']),
        lang_accents(seq!['c', 's'], 'z') == Some(seq!['ž']),
        c != 'a' && c != 'c' && c != 'd' && c != 'e' && c != 'i' && c != 'n' && c != 'o' && c != 'r' && c != 's' && c != 't' && c != 'u' && c != 'y' && c != 'z' ==> lang_accents(seq!['c', 's'], c) is None,
{
}

/// Hungarian (`hu`) offers accents for 'a', 'e', 'i', 'o', 'u' only, these exactly.
pub proof fn law_accents_hu(c: char)
    ensures
        lang_accents(seq!['h', 'u'], 'a') == Some(seq!['á']),
        lang_accents(seq!['h', 'u'], 'e') == Some(seq!['é']),
        lang_accents(seq!['h', 'u'], 'i') == Some(seq!['í']),
        lang_accents(seq!['h', 'u'], 'o') == Some(seq!['ó', 'ö', 'ő']),
        lang_accents(seq!['h', 'u'], 'u') == Some(seq!['ú', 'ü', 'ű']),
        c != 'a' && c != 'e' && c != 'i' && c != 'o' && c != 'u' ==> lang_accents(seq!['h', 'u'], c) is None,
{
}

/// A language code outside the table offers no accent.
pub proof fn law_accents_unknown_language(lang: Seq<char>, c: char)
    requires
        lang != seq!['f', 'r'] && lang != seq!['e', 's'] && lang != seq!['d', 'e'] && lang != seq!['p', 't'] && lang != seq!['i', 't'] && lang != seq!['n', 'l'] && lang != seq!['s', 'v'] && lang != seq!['n', 'o'] && lang != seq!['d', 'a'] && lang != seq!['p', 'l'] && lang != seq!['t', 'r'] && lang != seq!['r', 'o'] && lang != seq!['c', 's'] && lang != seq!['h', 'u'],
    ensures
        lang_accents(lang, c) is None,
{
    if lang.len() == 2 {
        assert(lang =~= seq![lang[0], lang[1]]);
    }
}

pub open spec fn opt_chars(o: Option<Vec<char>>) -> Option<Seq<char>> {
    match o {
        Some(v) => Some(v@),
        None => None,
    }
}

/// The accented variants of `letter` in the language `lang`.
pub fn chars_for_lang(letter: char, lang: &str) -> (r: Option<Vec<char>>)
    ensures
        opt_chars(r) == lang_accents(lang@, letter),
{
    let code = chars_of(lang);
    if code.len() != 2 {
        return None;
    }
    match (code[0], code[1], letter) {
        ('f', 'r', 'a') => Some(vec!['à', 'â', 'æ']),
        ('f', 'r', 'c') => Some(vec!['ç']),
        ('f', 'r', 'e') => Some(vec!['é', 'è', 'ê', 'ë']),
        ('f', 'r', 'i') => Some(vec!['î', 'ï']),
        ('f', 'r', 'o') => Some(vec!['ô', 'œ']),
        ('f', 'r', 'u') => Some(vec!['ù', 'û', 'ü']),
        ('f', 'r', 'y') => Some(vec!['ÿ']),
        ('e', 's', 'a') => Some(vec!['á']),
        ('e', 's', 'e') => Some(vec!['é']),
        ('e', 's', 'i') => Some(vec!['í']),
        ('e', 's', 'n') => Some(vec!['ñ']),
        ('e', 's', 'o') => Some(vec!['ó']),
        ('e', 's', 'u') => Some(vec!['ú', 'ü']),
        ('d', 'e', 'a') => Some(vec!['ä']),
        ('d', 'e', 'o') => Some(vec!['ö']),
        ('d', 'e', 'u') => Some(vec!['ü']),
        ('d', 'e', 's') => Some(vec!['ß']),
        ('p', 't', 'a') => Some(vec!['á', 'â', 'ã', 'à']),
        ('p', 't', 'c') => Some(vec!['ç']),
        ('p', 't', 'e') => Some(vec!['é', 'ê']),
        ('p', 't', 'i') => Some(vec!['í']),
        ('p', 't', 'o') => Some(vec!['ó', 'ô', 'õ']),
        ('p', 't', 'u') => Some(vec!['ú']),
        ('i', 't', 'a') => Some(vec!['à']),
        ('i', 't', 'e') => Some(vec!['è', 'é']),
        ('i', 't', 'i') => Some(vec!['ì', 'í']),
        ('i', 't', 'o') => Some(vec!['ò', 'ó']),
        ('i', 't', 'u') => Some(vec!['ù']),
        ('n', 'l', 'a') => Some(vec!['á', 'ä']),
        ('n', 'l', 'e') => Some(vec!['é', 'ë']),
        ('n', 'l', 'i') => Some(vec!['í', 'ï']),
        ('n', 'l', 'o') => Some(vec!['ó', 'ö']),
        ('n', 'l', 'u') => Some(vec!['ú', 'ü']),
        ('s', 'v', 'a') => Some(vec!['å', 'ä']),
        ('s', 'v', 'o') => Some(vec!['ö']),
        ('n', 'o', 'a') => Some(vec!['å', 'æ']),
        ('d', 'a', 'a') => Some(vec!['å', 'æ']),
        ('n', 'o', 'o') => Some(vec!['ø']),
        ('d', 'a', 'o') => Some(vec!['ø']),
        ('p', 'l', 'a') => Some(vec!['ą']),
        ('p', 'l', 'c') => Some(vec!['ć']),
        ('p', 'l', 'e') => Some(vec!['ę']),
        ('p', 'l', 'l') => Some(vec!['ł']),
        ('p', 'l', 'n') => Some(vec!['ń']),
        ('p', 'l', 'o') => Some(vec!['ó']),
        ('p', 'l', 's') => Some(vec!['ś']),
        ('p', 'l', 'z') => Some(vec!['ź', 'ż']),
        ('t', 'r', 'c') => Some(vec!['ç']),
        ('t', 'r', 'g') => Some(vec!['ğ']),
        ('t', 'r', 'i') => Some(vec!['ı', 'İ']),
        ('t', 'r', 'o') => Some(vec!['ö']),
        ('t', 'r', 's') => Some(vec!['ş']),
        ('t', 'r', 'u') => Some(vec!['ü']),
        ('r', 'o', 'a') => Some(vec!['ă', 'â']),
        ('r', 'o', 'i') => Some(vec!['î']),
        ('r', 'o', 's') => Some(vec!['ș']),
        ('r', 'o', 't') => Some(vec!['ț']),
        ('c', 's', 'a') => Some(vec!['á']),
        ('c', 's', 'c') => Some(vec!['č']),
        ('c', 's', 'd') => Some(vec!['ď']),
        ('c', 's', 'e') => Some(vec!['é', 'ě']),
        ('c', 's', 'i') => Some(vec!['í']),
        ('c', 's', 'n') => Some(vec!['ň']),
        ('c', 's', 'o') => Some(vec!['ó']),
        ('c', 's', 'r') => Some(vec!['ř']),
        ('c', 's', 's') => Some(vec!['š']),
        ('c', 's', 't') => Some(vec!['ť']),
        ('c', 's', 'u') => Some(vec!['ú', 'ů']),
        ('c', 's', 'y') => Some(vec!['ý']),
        ('c', 's', 'z') => Some(vec!['ž']),
        ('h', 'u', 'a') => Some(vec!['á']),
        ('h', 'u', 'e') => Some(vec!['é']),
        ('h', 'u', 'i') => Some(vec!['í']),
        ('h', 'u', 'o') => Some(vec!['ó', 'ö', 'ő']),
        ('h', 'u', 'u') => Some(vec!['ú', 'ü', 'ű']),
        _ => None,
    }
}


/// The first character of `char::to_lowercase(c)`.
pub uninterp spec fn lowercase_first(c: char) -> char;

/// The first character of `char::to_uppercase(c)`.
pub uninterp spec fn uppercase_first(c: char) -> char;

/// Whether `c` has the Unicode `Uppercase` property (`char::is_uppercase`).
pub uninterp spec fn uppercase_letter(c: char) -> bool;

/// `c` in lower case: the first character of `char::to_lowercase`.
#[verifier::external_body]
fn lower_of(c: char) -> (r: char)
    ensures
        r == lowercase_first(c),
{
    c.to_lowercase().next().unwrap_or(c)
}

/// `c` in upper case: the first character of `char::to_uppercase`.
#[verifier::external_body]
fn upper_of(c: char) -> (r: char)
    ensures
        r == uppercase_first(c),
{
    c.to_uppercase().next().unwrap_or(c)
}

/// Whether `c` is an upper-case letter (`char::is_uppercase`).
#[verifier::external_body]
fn is_upper(c: char) -> (b: bool)
    ensures
        b == uppercase_letter(c),
{
    c.is_uppercase()
}

/// An accent as shown for a letter typed in upper or lower case.
pub open spec fn adjust_case(c: char, up: bool) -> char {
    if up {
        uppercase_first(c)
    } else {
        c
    }
}

/// The accents of `lang` for `lower`, each put in the letter's case.
pub open spec fn lang_candidates(lang: Seq<char>, lower: char, up: bool) -> Seq<char> {
    match lang_accents(lang, lower) {
        Some(cs) => cs.map_values(|c: char| adjust_case(c, up)),
        None => seq![],
    }
}

/// All accents of the languages `langs`, in order, with repetitions.
pub open spec fn candidates(langs: Seq<Seq<char>>, lower: char, up: bool) -> Seq<char>
    decreases langs.len(),
{
    if langs.len() == 0 {
        seq![]
    } else {
        candidates(langs.drop_last(), lower, up) + lang_candidates(langs.last(), lower, up)
    }
}

/// `s` with every repetition of an earlier character left out.
pub open spec fn dedup(s: Seq<char>) -> Seq<char>
    decreases s.len(),
{
    if s.len() == 0 {
        seq![]
    } else {
        let d = dedup(s.drop_last());
        if d.contains(s.last()) {
            d
        } else {
            d.push(s.last())
        }
    }
}

/// The accented variants of `letter` over the languages `langs`: each
/// language's accents for the letter in lower case, in the letter's case,
/// first occurrences only.
pub open spec fn accents_of(letter: char, langs: Seq<Seq<char>>) -> Seq<char> {
    dedup(candidates(langs, lowercase_first(letter), uppercase_letter(letter)))
}

/// Whether `c` occurs in `v`.
fn contains_char(v: &Vec<char>, c: char) -> (b: bool)
    ensures
        b == v@.contains(c),
{
    let mut i: usize = 0;
    while i < v.len()
        invariant
            0 <= i <= v.len(),
            forall|j: int| 0 <= j < i ==> v@[j] != c,
        decreases v.len() - i,
    {
        if v[i] == c {
            assert(v@[i as int] == c);
            return true;
        }
        i += 1;
    }
    false
}

/// The accented variants of `letter` for the active languages, without
/// repetitions, in order of the languages.
pub fn accents_for_letter(letter: char, languages: &[String]) -> (r: Vec<char>)
    ensures
        r@ == accents_of(letter, views(languages@)),
{
    let lower = lower_of(letter);
    let up = is_upper(letter);
    let ghost langs = views(languages@);
    let mut result: Vec<char> = Vec::new();
    let mut i: usize = 0;
    assert(langs.take(0) =~= seq![]);
    while i < languages.len()
        invariant
            0 <= i <= languages.len(),
            langs == views(languages@),
            result@ == dedup(candidates(langs.take(i as int), lower, up)),
        decreases languages.len() - i,
    {
        let ghost before = candidates(langs.take(i as int), lower, up);
        proof {
            assert(langs.take(i + 1).drop_last() == langs.take(i as int));
            assert(langs.take(i + 1).last() == languages@[i as int]@);
        }
        match chars_for_lang(lower, languages[i].as_str()) {
            Some(cs) => {
                let ghost mapped = lang_candidates(languages@[i as int]@, lower, up);
                let mut j: usize = 0;
                assert(before + mapped.take(0) == before);
                while j < cs.len()
                    invariant
                        0 <= j <= cs.len(),
                        mapped == cs@.map_values(|c: char| adjust_case(c, up)),
                        result@ == dedup(before + mapped.take(j as int)),
                    decreases cs.len() - j,
                {
                    let adjusted = if up {
                        upper_of(cs[j])
                    } else {
                        cs[j]
                    };
                    proof {
                        let x = before + mapped.take(j + 1);
                        assert(x.drop_last() == before + mapped.take(j as int));
                        assert(x.last() == adjusted);
                    }
                    if !contains_char(&result, adjusted) {
                        result.push(adjusted);
                    }
                    j += 1;
                }
                assert(mapped.take(cs.len() as int) == mapped);
            },
            None => {
                assert(before + seq![] == before);
            },
        }
        i += 1;
    }
    assert(langs.take(i as int) == langs);
    result
}

/// Whether `letter` has any accented variant in the active languages.
pub fn has_accents(letter: char, languages: &[String]) -> (b: bool)
    ensures
        b == (accents_of(letter, views(languages@)).len() > 0),
{
    accents_for_letter(letter, languages).len() > 0
}

/// The accents offered hold no character twice, and hold exactly the
/// characters that some active language gives for the letter.
pub proof fn law_accents_dedup(s: Seq<char>)
    ensures
        forall|i: int, j: int| 0 <= i < j < dedup(s).len() ==> dedup(s)[i] != dedup(s)[j],
        forall|c: char| dedup(s).contains(c) <==> s.contains(c),
    decreases s.len(),
{
    if s.len() > 0 {
        let d = dedup(s.drop_last());
        law_accents_dedup(s.drop_last());
        assert forall|c: char| dedup(s).contains(c) <==> s.contains(c) by {
            if s.contains(c) {
                let k = choose|k: int| 0 <= k < s.len() && s[k] == c;
                if k < s.len() - 1 {
                    assert(s.drop_last()[k] == c);
                    assert(s.drop_last().contains(c));
                    assert(d.contains(c));
                    let m = choose|m: int| 0 <= m < d.len() && d[m] == c;
                    if !d.contains(s.last()) {
                        assert(d.push(s.last())[m] == c);
                    }
                } else {
                    assert(c == s.last());
                    if !d.contains(s.last()) {
                        assert(d.push(s.last())[d.len() as int] == c);
                    }
                }
                assert(dedup(s).contains(c));
            }
            if dedup(s).contains(c) {
                if d.contains(c) {
                    assert(s.drop_last().contains(c));
                    let k = choose|k: int| 0 <= k < s.drop_last().len() && s.drop_last()[k] == c;
                    assert(s[k] == c);
                } else {
                    assert(dedup(s) == d.push(s.last()));
                    assert(c == s.last());
                    assert(s[s.len() - 1] == c);
                }
            }
        }
        if !d.contains(s.last()) {
            assert forall|i: int, j: int| 0 <= i < j < dedup(s).len() implies dedup(s)[i] != dedup(s)[j] by {
                if j == d.len() {
                    assert(dedup(s)[i] == d[i]);
                    assert(d.contains(d[i]));
                }
            }
        }
    }
}


// ---------------------------------------------------------------------------
// Settings
// ---------------------------------------------------------------------------

/// The key that, pressed while a letter is held, opens the accent picker.
#[derive(Debug, Clone, Copy, PartialEq, Eq, Structural)]
pub enum ActivationKey {
    Space,
    LeftRight,
    Any,
}

/// Where the accent picker opens.
#[derive(Debug, Clone, Copy, PartialEq, Eq, Structural)]
pub enum ToolbarPosition {
    AboveCursor,
    BelowCursor,
    TopCenter,
    BottomCenter,
}

/// The Quick Accent settings.
#[derive(Debug, Clone)]
pub struct QuickAccentConfig {
    pub activation_key: ActivationKey,
    pub input_delay_ms: u64,
    pub languages: Vec<String>,
    pub toolbar_position: ToolbarPosition,
}

/// The default delay, in milliseconds, between the activation key and the
/// picker.
pub fn default_input_delay_ms() -> (d: u64)
    ensures
        d == 200,
{
    200
}

/// The default languages: French, Spanish, German, Portuguese, Italian.
pub open spec fn default_language_codes() -> Seq<Seq<char>> {
    seq![seq!['f', 'r'], seq!['e', 's'], seq!['d', 'e'], seq!['p', 't'], seq!['i', 't']]
}

/// The default languages are French, Spanish, German, Portuguese and
/// Italian, in that order, each with accents for `a`.
pub proof fn law_default_languages()
    ensures
        default_language_codes() == seq![seq!['f', 'r'], seq!['e', 's'], seq!['d', 'e'], seq!['p', 't'], seq!['i', 't']],
        forall|k: int| 0 <= k < default_language_codes().len() ==> lang_accents(#[trigger] default_language_codes()[k], 'a') is Some,
{
    let d = default_language_codes();
    assert forall|k: int| 0 <= k < d.len() implies lang_accents(#[trigger] d[k], 'a') is Some by {
        if k == 0 {
            assert(d[k] == seq!['f', 'r']);
        } else if k == 1 {
            assert(d[k] == seq!['e', 's']);
        } else if k == 2 {
            assert(d[k] == seq!['d', 'e']);
        } else if k == 3 {
            assert(d[k] == seq!['p', 't']);
        } else {
            assert(d[k] == seq!['i', 't']);
        }
    }
}

/// A two-letter code as a string.
fn code(a: char, b: char) -> (s: String)
    ensures
        s@ == seq![a, b],
{
    let mut s = String::new();
    push_char(&mut s, a);
    push_char(&mut s, b);
    assert(s@ =~= seq![a, b]);
    s
}

/// The default languages.
pub fn default_languages() -> (v: Vec<String>)
    ensures
        views(v@) == default_language_codes(),
{
    let v = vec![code('f', 'r'), code('e', 's'), code('d', 'e'), code('p', 't'), code('i', 't')];
    assert(views(v@) =~= default_language_codes());
    v
}

impl ActivationKey {
    /// The default activation key: space.
    pub fn default_key() -> (k: ActivationKey)
        ensures
            k == ActivationKey::Space,
    {
        ActivationKey::Space
    }
}

impl ToolbarPosition {
    /// The default position: above the cursor.
    pub fn default_position() -> (p: ToolbarPosition)
        ensures
            p == ToolbarPosition::AboveCursor,
    {
        ToolbarPosition::AboveCursor
    }
}

impl QuickAccentConfig {
    /// The default settings: space activates after 200 ms, for French,
    /// Spanish, German, Portuguese and Italian, above the cursor.
    pub fn default_config() -> (c: QuickAccentConfig)
        ensures
            c.activation_key == ActivationKey::Space,
            c.input_delay_ms == 200,
            views(c.languages@) == default_language_codes(),
            c.toolbar_position == ToolbarPosition::AboveCursor,
    {
        QuickAccentConfig {
            activation_key: ActivationKey::default_key(),
            input_delay_ms: default_input_delay_ms(),
            languages: default_languages(),
            toolbar_position: ToolbarPosition::default_position(),
        }
    }
}

// ---------------------------------------------------------------------------
// Opening the picker
// ---------------------------------------------------------------------------

/// The name of a position, as the picker takes it on its command line.
pub open spec fn position_name(p: ToolbarPosition) -> Seq<char> {
    match p {
        ToolbarPosition::AboveCursor => "above-cursor"@,
        ToolbarPosition::BelowCursor => "below-cursor"@,
        ToolbarPosition::TopCenter => "top-center"@,
        ToolbarPosition::BottomCenter => "bottom-center"@,
    }
}

/// The name of a position.
pub fn position_arg(p: ToolbarPosition) -> (s: String)
    ensures
        s@ == position_name(p),
{
    match p {
        ToolbarPosition::AboveCursor => owned("above-cursor"),
        ToolbarPosition::BelowCursor => owned("below-cursor"),
        ToolbarPosition::TopCenter => owned("top-center"),
        ToolbarPosition::BottomCenter => owned("bottom-center"),
    }
}

/// The picker's command line for `letter`: the letter, its accents, how
/// many characters to erase, and where to open; nothing when the letter has
/// no accents.
pub open spec fn overlay_args_of(letter: char, backspaces: u32, langs: Seq<Seq<char>>, p: ToolbarPosition) -> Option<Seq<Seq<char>>> {
    let accents = accents_of(letter, langs);
    if accents.len() == 0 {
        None
    } else {
        Some(
            seq![
                "--letter"@,
                seq![letter],
                "--chars"@,
                accents,
                "--backspaces"@,
                decimal(backspaces as nat),
                "--position"@,
                position_name(p),
            ],
        )
    }
}

/// The string of the characters `v`.
fn string_of_chars(v: &Vec<char>) -> (s: String)
    ensures
        s@ == v@,
{
    let mut s = String::new();
    let mut i: usize = 0;
    while i < v.len()
        invariant
            0 <= i <= v.len(),
            s@ == v@.take(i as int),
        decreases v.len() - i,
    {
        push_char(&mut s, v[i]);
        assert(v@.take(i + 1) == v@.take(i as int).push(v@[i as int]));
        i += 1;
    }
    assert(v@.take(i as int) == v@);
    s
}

/// The picker's command line for `letter` (see [`overlay_args_of`]).
pub fn overlay_args(letter: char, backspaces: u32, config: &QuickAccentConfig) -> (r: Option<Vec<String>>)
    ensures
        match r {
            Some(v) => overlay_args_of(letter, backspaces, views(config.languages@), config.toolbar_position) == Some(views(v@)),
            None => overlay_args_of(letter, backspaces, views(config.languages@), config.toolbar_position) is None,
        },
{
    let accents = accents_for_letter(letter, config.languages.as_slice());
    if accents.len() == 0 {
        return None;
    }
    let mut l = String::new();
    push_char(&mut l, letter);
    assert(l@ =~= seq![letter]);
    let mut bs = String::new();
    push_decimal(&mut bs, backspaces as u64);
    assert(bs@ =~= decimal(backspaces as nat));
    let v = vec![
        owned("--letter"),
        l,
        owned("--chars"),
        string_of_chars(&accents),
        owned("--backspaces"),
        bs,
        owned("--position"),
        position_arg(config.toolbar_position),
    ];
    proof {
        let want = overlay_args_of(letter, backspaces, views(config.languages@), config.toolbar_position);
        assert(views(v@) =~= want->Some_0);
    }
    Some(v)
}

/// The value that follows the first `flag` among `args`, if any.
pub open spec fn arg_after(args: Seq<Seq<char>>, flag: Seq<char>) -> Option<Seq<char>>
    decreases args.len(),
{
    if args.len() == 0 {
        None
    } else if args[0] == flag {
        if args.len() >= 2 {
            Some(args[1])
        } else {
            None
        }
    } else {
        arg_after(args.drop_first(), flag)
    }
}

/// The value that follows the first `flag` on the command line `args`.
pub fn parse_arg(args: &[String], flag: &str) -> (r: Option<String>)
    ensures
        match r {
            Some(s) => arg_after(views(args@), flag@) == Some(s@),
            None => arg_after(views(args@), flag@) is None,
        },
{
    let ghost a = views(args@);
    let mut i: usize = 0;
    assert(a.subrange(0, a.len() as int) == a);
    while i < args.len()
        invariant
            0 <= i <= args.len(),
            a == views(args@),
            arg_after(a, flag@) == arg_after(a.subrange(i as int, a.len() as int), flag@),
        decreases args.len() - i,
    {
        let ghost rest = a.subrange(i as int, a.len() as int);
        assert(rest[0] == args@[i as int]@);
        if same_text(args[i].as_str(), flag) {
            if i + 1 < args.len() {
                assert(rest[1] == args@[i + 1]@);
                return Some(args[i + 1].clone());
            }
            return None;
        }
        assert(rest.drop_first() == a.subrange(i + 1, a.len() as int));
        i += 1;
    }
    None
}

/// `BackSpace` `n` times, separated by spaces: the keys that erase what the
/// held letter typed.
pub open spec fn backspace_keys_of(n: nat) -> Seq<char> {
    join(Seq::new(n, |i: int| "BackSpace"@), seq![' '])
}

/// The keys that erase `n` typed characters.
pub fn backspace_keys(n: u32) -> (s: String)
    ensures
        s@ == backspace_keys_of(n as nat),
{
    let ghost parts = Seq::new(n as nat, |i: int| "BackSpace"@);
    let mut s = String::new();
    let mut i: u32 = 0;
    assert(parts.take(0) =~= seq![]);
    while i < n
        invariant
            0 <= i <= n,
            parts == Seq::new(n as nat, |i: int| "BackSpace"@),
            s@ == join(parts.take(i as int), seq![' ']),
        decreases n - i,
    {
        if i > 0 {
            push_char(&mut s, ' ');
        }
        push_all(&mut s, "BackSpace");
        proof {
            let t = parts.take(i + 1);
            assert(t.drop_last() == parts.take(i as int));
            assert(t.last() == "BackSpace"@);
            if i == 0 {
                assert(join(t, seq![' ']) == t[0]);
            }
            assert(s@ =~= join(t, seq![' ']));
        }
        i += 1;
    }
    assert(parts.take(i as int) == parts);
    s
}

// ---------------------------------------------------------------------------
// The picker
// ---------------------------------------------------------------------------

/// The accent picker: the offered characters, the selection, and the
/// outcome.
pub struct AccentPicker {
    pub accents: Vec<char>,
    pub selected_idx: usize,
    pub result: Option<char>,
    pub should_close: bool,
    pub had_focus: bool,
    pub frame_count: u32,
}

/// The keys pressed during one frame of the picker.
#[derive(Debug, Clone, Copy, PartialEq, Eq, Structural)]
pub struct PickerKeys {
    pub escape: bool,
    pub enter: bool,
    pub space: bool,
    pub right: bool,
    pub left: bool,
}

impl AccentPicker {
    /// Whether the selection lies within the offered characters.
    pub open spec fn wf(&self) -> bool {
        self.accents@.len() > 0 && self.selected_idx < self.accents@.len()
    }

    /// A picker on `accents`, the first one selected.
    pub fn new(accents: Vec<char>) -> (p: AccentPicker)
        ensures
            p.accents@ == accents@,
            p.selected_idx == 0,
            p.result is None,
            !p.should_close,
            !p.had_focus,
            p.frame_count == 0,
    {
        AccentPicker { accents, selected_idx: 0, result: None, should_close: false, had_focus: false, frame_count: 0 }
    }

    /// Takes the selected character and closes.
    pub fn confirm_selection(&mut self)
        ensures
            final(self).result == (if old(self).selected_idx < old(self).accents@.len() {
                Some(old(self).accents@[old(self).selected_idx as int])
            } else {
                old(self).result
            }),
            final(self).should_close,
            final(self).accents == old(self).accents,
            final(self).selected_idx == old(self).selected_idx,
            final(self).had_focus == old(self).had_focus,
            final(self).frame_count == old(self).frame_count,
    {
        if self.selected_idx < self.accents.len() {
            self.result = Some(self.accents[self.selected_idx]);
        }
        self.should_close = true;
    }

    /// Counts a frame, saturating.
    pub fn count_frame(&mut self)
        ensures
            final(self).frame_count == (if old(self).frame_count == u32::MAX {
                u32::MAX as int
            } else {
                old(self).frame_count + 1
            }),
            final(self).accents == old(self).accents,
            final(self).selected_idx == old(self).selected_idx,
            final(self).result == old(self).result,
            final(self).should_close == old(self).should_close,
            final(self).had_focus == old(self).had_focus,
    {
        self.frame_count = self.frame_count.saturating_add(1);
    }

    /// Applies the keys of one frame, in the order Escape, Enter, Space,
    /// Right, Left: Escape closes, Enter confirms, Space and Right select the
    /// next character, Left the previous one, wrapping around.
    pub fn handle_keys(&mut self, keys: PickerKeys)
        requires
            old(self).wf(),
        ensures
            final(self).wf(),
            final(self).accents == old(self).accents,
            final(self).selected_idx == picker_index(
                old(self).selected_idx as int,
                old(self).accents@.len() as int,
                keys,
            ),
            final(self).should_close == (old(self).should_close || keys.escape || keys.enter),
            final(self).result == (if keys.enter {
                Some(old(self).accents@[old(self).selected_idx as int])
            } else {
                old(self).result
            }),
            final(self).had_focus == old(self).had_focus,
            final(self).frame_count == old(self).frame_count,
    {
        let n = self.accents.len();
        if keys.escape {
            self.should_close = true;
        }
        if keys.enter {
            self.confirm_selection();
        }
        if keys.space {
            self.selected_idx = (self.selected_idx + 1) % n;
        }
        if keys.right {
            self.selected_idx = (self.selected_idx + 1) % n;
        }
        if keys.left {
            // the same as `(i + n - 1) % n` for `i < n`, without going past `n`
            let i = self.selected_idx;
            self.selected_idx = if i == 0 {
                n - 1
            } else {
                i - 1
            };
            assert(self.selected_idx == (i + n - 1) % (n as int)) by {
                let j = i as int;
                let m = n as int;
                if j == 0 {
                    assert((j + m - 1) % m == m - 1) by (nonlinear_arith)
                        requires j == 0, m > 0;
                } else {
                    assert((j + m - 1) % m == j - 1) by (nonlinear_arith)
                        requires 0 < j < m;
                }
            }
        }
    }

    /// Closes once focus, having been gained, is lost.
    pub fn observe_focus(&mut self, has_focus: bool)
        ensures
            final(self).had_focus == (old(self).had_focus || has_focus),
            final(self).should_close == (old(self).should_close || (!has_focus && old(self).had_focus)),
            final(self).accents == old(self).accents,
            final(self).selected_idx == old(self).selected_idx,
            final(self).result == old(self).result,
            final(self).frame_count == old(self).frame_count,
    {
        if has_focus {
            self.had_focus = true;
        }
        if !has_focus && self.had_focus {
            self.should_close = true;
        }
    }

    /// Selects the character under the pointer.
    pub fn hover(&mut self, i: usize)
        requires
            old(self).wf(),
            i < old(self).accents@.len(),
        ensures
            final(self).wf(),
            final(self).selected_idx == i,
            final(self).accents == old(self).accents,
            final(self).result == old(self).result,
            final(self).should_close == old(self).should_close,
            final(self).had_focus == old(self).had_focus,
            final(self).frame_count == old(self).frame_count,
    {
        self.selected_idx = i;
    }

    /// Picks the clicked character.
    pub fn click(&mut self, i: usize)
        requires
            old(self).wf(),
            i < old(self).accents@.len(),
        ensures
            final(self).wf(),
            final(self).selected_idx == i,
            final(self).result == Some(old(self).accents@[i as int]),
            final(self).should_close,
            final(self).accents == old(self).accents,
    {
        self.selected_idx = i;
        self.confirm_selection();
    }
}

/// The picker's keys move the selection by one, wrapping around, and keep it
/// among the `n` offered characters: one Space or Right press selects the
/// next, one Left press the previous, and no key leaves it.
pub proof fn law_picker_steps(i: int, n: int)
    requires
        0 <= i < n,
    ensures
        ({
            let none = PickerKeys { escape: false, enter: false, space: false, right: false, left: false };
            &&& picker_index(i, n, PickerKeys { space: true, ..none }) == (i + 1) % n
            &&& picker_index(i, n, PickerKeys { right: true, ..none }) == (i + 1) % n
            &&& picker_index(i, n, PickerKeys { left: true, ..none }) == (i + n - 1) % n
            &&& picker_index(i, n, none) == i
        }),
        forall|keys: PickerKeys| 0 <= #[trigger] picker_index(i, n, keys) < n,
{
}

/// The selection after one frame's keys (see [`AccentPicker::handle_keys`]).
pub open spec fn picker_index(i: int, n: int, keys: PickerKeys) -> int {
    let a = if keys.space { (i + 1) % n } else { i };
    let b = if keys.right { (a + 1) % n } else { a };
    if keys.left { (b + n - 1) % n } else { b }
}

} // verus!
