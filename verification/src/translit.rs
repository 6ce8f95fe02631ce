//! Best-effort ASCII stand-ins for characters beyond ASCII.

use crate::chars::{to_ascii_uppercase, unicode_uppercase, upper_ascii};
use vstd::prelude::*;

verus! {

/// The table: Latin letters with diacritics lose them, ligatures are spelled
/// out, Cyrillic letters are romanized, a few symbols stand in for the letter
/// they resemble. The Cyrillic hard and soft signs map to nothing, so they
/// vanish from a slug. Every stand-in is in lowercase.
pub open spec fn replacement(c: char) -> Option<Seq<char>> {
    match c {
        'À' | 'Á' | 'Â' | 'Ã' | 'Ä' | 'Å' | 'à' | 'á' | 'â' | 'ã' | 'ä' | 'å' | 'Ā' | 'ā' |
        'Ă' | 'ă' | 'Ą' | 'ą' | 'А' | 'а' => Some("a"@),
        'Æ' | 'æ' => Some("ae"@),
        'β' | 'Б' | 'б' => Some("b"@),
        'Ç' | 'ç' | 'Ć' | 'ć' | 'Ĉ' | 'ĉ' | 'Ċ' | 'ċ' | 'Č' | 'č' => Some("c"@),
        'Ч' | 'ч' => Some("ch"@),
        'Ð' | 'ð' | 'Ď' | 'ď' | 'Đ' | 'đ' | 'Д' | 'д' => Some("d"@),
        'È' | 'É' | 'Ê' | 'Ë' | 'è' | 'é' | 'ê' | 'ë' | 'Ē' | 'ē' | 'Ĕ' | 'ĕ' | 'Ė' | 'ė' |
        'Ę' | 'ę' | 'Ě' | 'ě' | 'Ə' | 'ə' | 'Ё' | 'Е' | 'Э' | 'е' | 'э' | 'ё' | '€' => Some("e"@),
        'Ф' | 'ф' => Some("f"@),
        'Г' | 'г' | 'Ґ' | 'ґ' => Some("g"@),
        'Х' | 'х' => Some("h"@),
        'Ì' | 'Í' | 'Î' | 'Ï' | 'ì' | 'í' | 'î' | 'ï' | 'Ĩ' | 'ĩ' | 'Ī' | 'ī' | 'Ĭ' | 'ĭ' |
        'Į' | 'į' | 'İ' | 'ı' | 'І' | 'И' | 'и' | 'і' => Some("i"@),
        'К' | 'к' => Some("k"@),
        'Ł' | 'ł' | 'Л' | 'л' => Some("l"@),
        'М' | 'м' => Some("m"@),
        'Ñ' | 'ñ' | 'Ń' | 'ń' | 'Ņ' | 'ņ' | 'Ň' | 'ň' | 'Н' | 'н' => Some("n"@),
        'Ò' | 'Ó' | 'Ô' | 'Õ' | 'Ö' | 'Ø' | 'ò' | 'ó' | 'ô' | 'õ' | 'ö' | 'ø' | 'Ō' | 'ō' |
        'Ŏ' | 'ŏ' | 'Ő' | 'ő' | 'О' | 'о' | '∂' => Some("o"@),
        'Œ' | 'œ' => Some("oe"@),
        'П' | 'п' => Some("p"@),
        'Р' | 'р' => Some("r"@),
        'Ś' | 'ś' | 'Š' | 'š' | 'С' | 'с' | '∫' => Some("s"@),
        'Ш' | 'ш' => Some("sh"@),
        'Щ' | 'щ' => Some("shch"@),
        'Т' | 'т' => Some("t"@),
        'Þ' | 'þ' => Some("th"@),
        'Ц' | 'ц' => Some("ts"@),
        'Ù' | 'Ú' | 'Û' | 'Ü' | 'ù' | 'ú' | 'û' | 'ü' | 'Ũ' | 'ũ' | 'Ū' | 'ū' | 'Ŭ' | 'ŭ' |
        'Ů' | 'ů' | 'Ű' | 'ű' | 'Ų' | 'ų' | 'У' | 'у' => Some("u"@),
        'В' | 'в' => Some("v"@),
        'Ý' | 'ý' | 'ÿ' | 'Ÿ' | 'Й' | 'Ы' | 'й' | 'ы' => Some("y"@),
        'Я' | 'я' => Some("ya"@),
        'Є' | 'є' => Some("ye"@),
        'Ї' | 'ї' => Some("yi"@),
        'Ю' | 'ю' => Some("yu"@),
        'Ź' | 'ź' | 'Ż' | 'ż' | 'Ž' | 'ž' | 'З' | 'з' => Some("z"@),
        'Ж' | 'ж' => Some("zh"@),
        'ß' => Some("ss"@),
        'Ъ' | 'Ь' | 'ъ' | 'ь' => Some(Seq::empty()),
        _ => None,
    }
}

/// `s` with its first character raised, if that is an ASCII small letter.
pub open spec fn titled(s: Seq<char>) -> Seq<char> {
    if s.len() == 0 {
        s
    } else {
        seq![upper_ascii(s[0])] + s.drop_first()
    }
}

/// The stand-in for `c`, title-cased on request. `ß` has no capital form
/// here and always gives `ss`.
pub open spec fn transliteration(c: char, title_case: bool) -> Option<Seq<char>> {
    match replacement(c) {
        Some(s) => Some(
            if title_case && c != 'ß' {
                titled(s)
            } else {
                s
            },
        ),
        None => None,
    }
}

/// The characters of an optional string.
pub open spec fn text_of(r: Option<String>) -> Option<Seq<char>> {
    match r {
        Some(s) => Some(s@),
        None => None,
    }
}

/// No ASCII character has a stand-in.
pub proof fn lemma_ascii_has_no_replacement(c: char)
    requires
        c <= '\u{7f}',
    ensures
        replacement(c) is None,
{
}

/// Copies `s`, raising its first character when `title_case` is set.
pub fn case_adjust(s: &str, title_case: bool) -> (r: String)
    ensures
        r@ == if title_case {
            titled(s@)
        } else {
            s@
        },
{
    if !title_case || s.is_empty() {
        return s.to_owned();
    }
    let mut out = String::new();
    let mut first = true;
    for c in it: s.chars()
        invariant
            it.seq() == s@,
            first == (it.index() == 0),
            out@ == titled(s@).take(it.index()),
    {
        if first {
            out.push(to_ascii_uppercase(c));
            first = false;
        } else {
            out.push(c);
        }
    }
    out
}

/// Looks `ch` up in the table. With `title_case` set, the first letter of the
/// stand-in is a capital.
pub fn transliterate_cased(ch: char, title_case: bool) -> (r: Option<String>)
    ensures
        text_of(r) == transliteration(ch, title_case),
{
    let base: &'static str = match ch {
        'À' | 'Á' | 'Â' | 'Ã' | 'Ä' | 'Å' | 'à' | 'á' | 'â' | 'ã' | 'ä' | 'å' | 'Ā' | 'ā' |
        'Ă' | 'ă' | 'Ą' | 'ą' | 'А' | 'а' => "a",
        'Æ' | 'æ' => "ae",
        'β' | 'Б' | 'б' => "b",
        'Ç' | 'ç' | 'Ć' | 'ć' | 'Ĉ' | 'ĉ' | 'Ċ' | 'ċ' | 'Č' | 'č' => "c",
        'Ч' | 'ч' => "ch",
        'Ð' | 'ð' | 'Ď' | 'ď' | 'Đ' | 'đ' | 'Д' | 'д' => "d",
        'È' | 'É' | 'Ê' | 'Ë' | 'è' | 'é' | 'ê' | 'ë' | 'Ē' | 'ē' | 'Ĕ' | 'ĕ' | 'Ė' | 'ė' |
        'Ę' | 'ę' | 'Ě' | 'ě' | 'Ə' | 'ə' | 'Ё' | 'Е' | 'Э' | 'е' | 'э' | 'ё' | '€' => "e",
        'Ф' | 'ф' => "f",
        'Г' | 'г' | 'Ґ' | 'ґ' => "g",
        'Х' | 'х' => "h",
        'Ì' | 'Í' | 'Î' | 'Ï' | 'ì' | 'í' | 'î' | 'ï' | 'Ĩ' | 'ĩ' | 'Ī' | 'ī' | 'Ĭ' | 'ĭ' |
        'Į' | 'į' | 'İ' | 'ı' | 'І' | 'И' | 'и' | 'і' => "i",
        'К' | 'к' => "k",
        'Ł' | 'ł' | 'Л' | 'л' => "l",
        'М' | 'м' => "m",
        'Ñ' | 'ñ' | 'Ń' | 'ń' | 'Ņ' | 'ņ' | 'Ň' | 'ň' | 'Н' | 'н' => "n",
        'Ò' | 'Ó' | 'Ô' | 'Õ' | 'Ö' | 'Ø' | 'ò' | 'ó' | 'ô' | 'õ' | 'ö' | 'ø' | 'Ō' | 'ō' |
        'Ŏ' | 'ŏ' | 'Ő' | 'ő' | 'О' | 'о' | '∂' => "o",
        'Œ' | 'œ' => "oe",
        'П' | 'п' => "p",
        'Р' | 'р' => "r",
        'Ś' | 'ś' | 'Š' | 'š' | 'С' | 'с' | '∫' => "s",
        'Ш' | 'ш' => "sh",
        'Щ' | 'щ' => "shch",
        'Т' | 'т' => "t",
        'Þ' | 'þ' => "th",
        'Ц' | 'ц' => "ts",
        'Ù' | 'Ú' | 'Û' | 'Ü' | 'ù' | 'ú' | 'û' | 'ü' | 'Ũ' | 'ũ' | 'Ū' | 'ū' | 'Ŭ' | 'ŭ' |
        'Ů' | 'ů' | 'Ű' | 'ű' | 'Ų' | 'ų' | 'У' | 'у' => "u",
        'В' | 'в' => "v",
        'Ý' | 'ý' | 'ÿ' | 'Ÿ' | 'Й' | 'Ы' | 'й' | 'ы' => "y",
        'Я' | 'я' => "ya",
        'Є' | 'є' => "ye",
        'Ї' | 'ї' => "yi",
        'Ю' | 'ю' => "yu",
        'Ź' | 'ź' | 'Ż' | 'ż' | 'Ž' | 'ž' | 'З' | 'з' => "z",
        'Ж' | 'ж' => "zh",
        'ß' => {
            return Some("ss".to_owned());
        },
        'Ъ' | 'Ь' | 'ъ' | 'ь' => {
            return Some(String::new());
        },
        _ => {
            return None;
        },
    };
    Some(case_adjust(base, title_case))
}

/// The ASCII stand-in for `ch`, or `None` where the table has none (as for
/// every ASCII character). An uppercase `ch` gives a capitalized stand-in
/// unless `lowercase` is set.
pub fn transliterate(ch: char, lowercase: bool) -> (r: Option<String>)
    ensures
        text_of(r) == transliteration(ch, unicode_uppercase(ch) && !lowercase),
{
    if ch <= '\u{7f}' {
        proof {
            lemma_ascii_has_no_replacement(ch);
        }
        return None;
    }
    let title_case = ch.is_uppercase() && !lowercase;
    transliterate_cased(ch, title_case)
}

} // verus!
