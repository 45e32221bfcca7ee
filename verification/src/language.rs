//! The English-only filter used before any prompt reaches the classifier.
//!
//! A text is English when, once trimmed, it is not empty and either the
//! `whatlang` detector names English, or the detector gives no firm
//! non-English verdict and the text is written in ASCII Latin letters and
//! holds a word of the common-English dictionary below.
use vstd::prelude::*;

use crate::text::{
    ascii_lower_seq, chars_of, char_views, eq_ignore_ascii_case, is_alphabetic, is_ascii_letter, is_ascii_letter_char,
    lemma_trimmed_idempotent, lower_ascii_chars, runs, same_chars, split_runs, string_from_chars,
    trim_chars, trimmed, unicode_alphabetic, RunKind,
};

verus! {

/// Common English words, one per line, in lower case.
pub const ENGLISH_WORDS: &'static str = "a\nabout\nabove\nacross\nact\naction\nactually\nadd\naddress\nafter\nafternoon\nagain\n\
    against\nage\nago\nagree\nahead\nair\nall\nallow\nalmost\nalone\nalong\nalready\nalso\n\
    although\nalways\nam\namong\namount\nan\nand\nangry\nanimal\nanother\nanswer\nany\nanyone\n\
    anything\nanyway\nanywhere\nappear\napple\nare\narea\narm\naround\narrive\nart\narticle\n\
    as\nask\nassistant\nat\nattack\nattention\naunt\nautumn\navailable\naway\nbaby\nback\n\
    bad\nbag\nball\nbank\nbase\nbe\nbeautiful\nbecause\nbecome\nbed\nbeen\nbefore\nbegin\n\
    behind\nbeing\nbelieve\nbelow\nbest\nbetter\nbetween\nbig\nbill\nbird\nbit\nblack\nblue\n\
    board\nboat\nbody\nbook\nborn\nboth\nbottom\nbox\nboy\nbrain\nbread\nbreak\nbreakfast\n\
    bring\nbrother\nbrown\nbuild\nbusiness\nbusy\nbut\nbuy\nby\ncall\ncalm\ncame\ncan\ncar\n\
    card\ncare\ncarry\ncase\ncat\ncatch\ncause\ncenter\ncertain\nchair\nchance\nchange\n\
    cheap\ncheck\nchild\nchildren\nchoose\ncity\nclass\nclean\nclear\nclose\nclothes\ncloud\n\
    code\ncold\ncollege\ncolor\ncome\ncommon\ncompany\ncomplete\ncomputer\nconsider\ncontact\n\
    content\ncontinue\ncontrol\ncook\ncool\ncopy\ncorrect\ncost\ncould\ncount\ncountry\n\
    course\ncover\ncreate\ncup\ncut\ndad\ndaily\ndance\ndanger\ndark\ndata\ndate\ndaughter\n\
    day\ndead\ndeal\ndear\ndecide\ndeep\ndelete\ndescribe\ndesign\ndetail\ndevelop\ndid\n\
    die\ndifferent\ndifficult\ndinner\ndirection\ndo\ndoctor\ndocument\ndoes\ndog\ndone\n\
    door\ndown\ndraw\ndream\ndress\ndrink\ndrive\ndrop\nduring\neach\near\nearly\nearth\n\
    easy\neat\nedge\neffect\negg\neight\neither\nelse\nemail\nend\nenjoy\nenough\nenter\n\
    entire\nerror\neven\nevening\nevent\never\nevery\neveryone\neverything\nexactly\nexample\n\
    except\nexecute\nexist\nexpect\nexperience\nexplain\neye\nface\nfact\nfail\nfall\nfamily\n\
    far\nfarm\nfast\nfather\nfear\nfeel\nfew\nfield\nfile\nfill\nfinal\nfind\nfine\nfinish\n\
    fire\nfirst\nfish\nfive\nfloor\nfly\nfollow\nfood\nfoot\nfor\nforget\nform\nforward\n\
    four\nfree\nfriend\nfrom\nfront\nfull\nfun\nfuture\ngame\ngarden\ngave\ngeneral\nget\n\
    girl\ngive\nglad\ngo\ngood\ngot\ngreat\ngreen\ngroup\ngrow\nguess\nhad\nhair\nhalf\nhand\n\
    happen\nhappy\nhard\nhas\nhat\nhave\nhe\nhead\nhear\nheart\nheavy\nhello\nhelp\nher\nhere\n\
    hi\nhigh\nhim\nhis\nhistory\nhold\nhome\nhope\nhorse\nhospital\nhot\nhour\nhouse\nhow\n\
    however\nhuman\nhundred\nhungry\nidea\nif\nignore\nimage\nimportant\nin\ninclude\ninformation\n\
    inside\ninstead\ninstruction\ninstructions\ninterest\ninto\nis\nissue\nit\nits\njob\n\
    join\njust\nkeep\nkey\nkid\nkind\nkitchen\nknow\nland\nlanguage\nlarge\nlast\nlate\nlater\n\
    laugh\nlearn\nleast\nleave\nleft\nleg\nless\nlet\nletter\nlevel\nlibrary\nlife\nlight\n\
    like\nline\nlist\nlisten\nlittle\nlive\nlong\nlook\nlose\nlot\nlove\nlow\nmachine\nmade\n\
    main\nmake\nman\nmany\nmap\nmarket\nmatter\nmay\nme\nmean\nmeet\nmember\nmemory\nmessage\n\
    might\nmind\nminute\nmiss\nmodel\nmoment\nmoney\nmonth\nmore\nmorning\nmost\nmother\n\
    move\nmovie\nmuch\nmusic\nmust\nmy\nname\nnear\nneed\nnever\nnew\nnews\nnext\nnice\nnight\n\
    nine\nno\nnone\nnoon\nnorth\nnot\nnote\nnothing\nnotice\nnow\nnumber\nof\noff\noffer\n\
    office\noften\noh\nok\nokay\nold\non\nonce\none\nonly\nopen\nor\norder\nother\nour\nout\n\
    outside\nover\nown\npage\npaper\nparent\npart\nparty\npass\npast\npay\npeople\nperhaps\n\
    person\nphone\npicture\npiece\nplace\nplan\nplay\nplease\npoint\npolice\npoor\npossible\n\
    power\nprepare\npresent\npretty\nprevious\nprice\nprint\nproblem\nprogram\nprompt\n\
    provide\npublic\npull\npush\nput\nquestion\nquick\nquickly\nquiet\nrain\nrather\nread\n\
    ready\nreal\nreally\nreason\nreceive\nred\nremember\nrepeat\nreply\nreport\nrequest\n\
    rest\nresult\nreturn\nreveal\nright\nriver\nroad\nroom\nrule\nrun\nsafe\nsaid\nsame\n\
    save\nsay\nschool\nsea\nsecond\nsecret\nsee\nseem\nsell\nsend\nsentence\nset\nseven\n\
    several\nshe\nshort\nshould\nshow\nside\nsimple\nsince\nsing\nsister\nsit\nsix\nsize\n\
    sleep\nslow\nsmall\nsmile\nsnow\nso\nsome\nsomeone\nsomething\nsometimes\nson\nsong\n\
    soon\nsorry\nsound\nsouth\nspeak\nspecial\nspend\nsport\nspring\nstand\nstart\nstate\n\
    stay\nstep\nstill\nstop\nstore\nstory\nstreet\nstrong\nstudent\nstudy\nsuch\nsummer\n\
    sun\nsupport\nsure\nsystem\ntable\ntake\ntalk\ntask\nteacher\nteam\ntell\nten\ntest\n\
    text\nthan\nthank\nthanks\nthat\nthe\ntheir\nthem\nthen\nthere\nthese\nthey\nthing\nthink\n\
    third\nthis\nthose\nthough\nthought\nthree\nthrough\ntime\nto\ntoday\ntogether\ntold\n\
    tomorrow\ntoo\ntook\ntop\ntoward\ntown\ntree\ntrue\ntry\nturn\ntwo\ntype\nuncle\nunder\n\
    understand\nuntil\nup\nus\nuse\nuser\nusual\nvery\nvisit\nvoice\nwait\nwalk\nwant\nwar\n\
    warm\nwas\nwatch\nwater\nway\nwe\nweather\nweek\nwell\nwent\nwere\nwest\nwhat\nwhen\nwhere\n\
    which\nwhile\nwhite\nwho\nwhole\nwhy\nwife\nwill\nwin\nwindow\nwinter\nwish\nwith\nwithout\n\
    woman\nwonder\nword\nwork\nworld\nwould\nwrite\nwrong\nyear\nyes\nyesterday\nyet\nyou\n\
    young\nyour\nyourself\n";

/// The IEEE-754 binary64 bits of `0.12`, the least detector confidence at
/// which an unreliable non-English guess still rejects a text.
///
/// The detector's confidence lies between 0 and 1; for such non-negative
/// doubles the order of the bit patterns, read as unsigned integers, is the
/// order of the numbers, so comparing bits compares confidences.
pub const NON_ENGLISH_CONFIDENCE_FLOOR_BITS: u64 = 0x3FBE_B851_EB85_1EB8;

// ---------------------------------------------------------------------------
// The language detector
// ---------------------------------------------------------------------------

/// What `whatlang::detect` says of a text: `None` when it detects nothing,
/// else the ISO 639-3 code of the language, whether the guess is reliable
/// and the bits of the confidence.
pub uninterp spec fn whatlang_guess(text: Seq<char>) -> Option<(Seq<char>, bool, u64)>;

/// A language guess as plain values.
pub struct LanguageGuess {
    /// ISO 639-3 code of the language (`"eng"` for English).
    pub code: String,
    /// Whether the detector considers the guess reliable.
    pub reliable: bool,
    /// IEEE-754 bits of the detector's confidence, a number from 0 to 1.
    pub confidence_bits: u64,
}

/// Calls `whatlang::detect` and reads the `Info` it returns through
/// `lang().code()`, `is_reliable()` and `confidence().to_bits()`.
/// `detect` is a pure function of the text; its result is named by
/// `whatlang_guess`, and nothing more is claimed of it.
#[verifier::external_body]
pub(crate) fn detect_language(text: &str) -> (r: Option<LanguageGuess>)
    ensures
        r is None <==> whatlang_guess(text@) is None,
        r matches Some(g) ==> whatlang_guess(text@) == Some((g.code@, g.reliable, g.confidence_bits)),
{
    match whatlang::detect(text) {
        Some(info) => Some(LanguageGuess {
            code: info.lang().code().to_string(),
            reliable: info.is_reliable(),
            confidence_bits: info.confidence().to_bits(),
        }),
        None => None,
    }
}

impl View for LanguageGuess {
    type V = (Seq<char>, bool, u64);

    open spec fn view(&self) -> (Seq<char>, bool, u64) {
        (self.code@, self.reliable, self.confidence_bits)
    }
}

pub open spec fn guess_view(guess: Option<LanguageGuess>) -> Option<(Seq<char>, bool, u64)> {
    match guess {
        Some(g) => Some(g@),
        None => None,
    }
}

/// The verdict of a detector answer: `Some(true)` when it names English,
/// `Some(false)` when it names another language reliably or with a
/// confidence at the floor or above, `None` when it leaves the question open.
pub open spec fn verdict_of_guess(guess: Option<(Seq<char>, bool, u64)>) -> Option<bool> {
    match guess {
        Some((code, reliable, bits)) => if code == "eng"@ {
            Some(true)
        } else if reliable {
            Some(false)
        } else if bits >= NON_ENGLISH_CONFIDENCE_FLOOR_BITS {
            Some(false)
        } else {
            None
        },
        None => None,
    }
}

/// The detector's verdict on `t`.
pub open spec fn detection_verdict(t: Seq<char>) -> Option<bool> {
    verdict_of_guess(whatlang_guess(t))
}

/// The verdict of a detector answer (see `verdict_of_guess`).
pub fn verdict_from_guess(guess: &Option<LanguageGuess>) -> (r: Option<bool>)
    ensures
        r == verdict_of_guess(guess_view(*guess)),
{
    match guess {
        Some(g) => {
            let code = chars_of(g.code.as_str());
            let eng = chars_of("eng");
            if same_chars(&code, &eng) {
                Some(true)
            } else if g.reliable {
                Some(false)
            } else if g.confidence_bits >= NON_ENGLISH_CONFIDENCE_FLOOR_BITS {
                Some(false)
            } else {
                None
            }
        },
        None => None,
    }
}

/// Asks the detector about `t` (already trimmed).
pub fn detect_trimmed(t: &Vec<char>) -> (r: Option<LanguageGuess>)
    ensures
        guess_view(r) == whatlang_guess(t@),
{
    let text = string_from_chars(t);
    detect_language(text.as_str())
}

// ---------------------------------------------------------------------------
// Script and dictionary
// ---------------------------------------------------------------------------

/// Every alphabetic character of `t` is an ASCII letter, and there is one.
pub open spec fn latin_letters_only(t: Seq<char>) -> bool {
    &&& forall|i: int| 0 <= i < t.len() ==> !(#[trigger] unicode_alphabetic(t[i]) && !is_ascii_letter(t[i]))
    &&& exists|i: int| 0 <= i < t.len() && #[trigger] is_ascii_letter(t[i])
}

/// Whether every alphabetic character of `t` is an ASCII letter and at least
/// one ASCII letter occurs.
pub fn is_ascii_latin_letters(t: &Vec<char>) -> (r: bool)
    ensures
        r == latin_letters_only(t@),
{
    let mut seen_letter = false;
    let mut i: usize = 0;
    while i < t.len()
        invariant
            i <= t.len(),
            forall|k: int| 0 <= k < i ==> !(#[trigger] unicode_alphabetic(t@[k]) && !is_ascii_letter(t@[k])),
            seen_letter <==> exists|k: int| 0 <= k < i && #[trigger] is_ascii_letter(t@[k]),
        decreases t.len() - i,
    {
        let c = t[i];
        if is_ascii_letter_char(c) {
            seen_letter = true;
        } else if is_alphabetic(c) {
            assert(unicode_alphabetic(t@[i as int]) && !is_ascii_letter(t@[i as int]));
            return false;
        }
        i = i + 1;
    }
    seen_letter
}

/// The dictionary: the lines of `ENGLISH_WORDS`, in lower case.
pub open spec fn dictionary() -> Seq<Seq<char>> {
    runs(ENGLISH_WORDS@, RunKind::Line).map_values(|w: Seq<char>| ascii_lower_seq(w))
}

/// Whether `word`, folded to lower case, is in the dictionary.
pub open spec fn is_dictionary_word(word: Seq<char>) -> bool {
    dictionary().contains(ascii_lower_seq(word))
}

/// Splits `ENGLISH_WORDS` into its lines and folds them to lower case.
pub fn load_dictionary() -> (d: Vec<Vec<char>>)
    ensures
        char_views(d@) == dictionary(),
{
    let all = chars_of(ENGLISH_WORDS);
    let lines = split_runs(&all, RunKind::Line);
    let mut d: Vec<Vec<char>> = Vec::new();
    let mut i: usize = 0;
    while i < lines.len()
        invariant
            i <= lines.len(),
            char_views(lines@) == runs(ENGLISH_WORDS@, RunKind::Line),
            char_views(d@) == char_views(lines@).take(i as int).map_values(|w: Seq<char>| ascii_lower_seq(w)),
        decreases lines.len() - i,
    {
        let lowered = lower_ascii_chars(&lines[i]);
        let ghost before = d@;
        d.push(lowered);
        assert(char_views(d@) =~= char_views(before).push(lowered@));
        assert(char_views(lines@).take(i + 1) =~= char_views(lines@).take(i as int).push(lines@[i as int]@));
        i = i + 1;
    }
    assert(char_views(lines@).take(lines.len() as int) =~= char_views(lines@));
    d
}

/// Whether `w` is one of the entries of `list`.
pub fn contains_chars(list: &Vec<Vec<char>>, w: &Vec<char>) -> (r: bool)
    ensures
        r == char_views(list@).contains(w@),
{
    let mut i: usize = 0;
    while i < list.len()
        invariant
            i <= list.len(),
            forall|k: int| 0 <= k < i ==> list@[k]@ != w@,
        decreases list.len() - i,
    {
        if same_chars(&list[i], w) {
            assert(char_views(list@)[i as int] == w@);
            return true;
        }
        i = i + 1;
    }
    assert forall|k: int| 0 <= k < char_views(list@).len() implies char_views(list@)[k] != w@ by {
        assert(list@[k]@ != w@);
    }
    false
}

/// Whether `word` is in `dict` once folded to lower case (`dict` being the
/// loaded dictionary).
pub fn is_dictionary_word_in(dict: &Vec<Vec<char>>, word: &Vec<char>) -> (r: bool)
    requires
        char_views(dict@) == dictionary(),
    ensures
        r == is_dictionary_word(word@),
{
    let lower = lower_ascii_chars(word);
    contains_chars(dict, &lower)
}

/// Whether `word`, folded to lower case, is a common English word.
pub fn is_common_english_word(word: &str) -> (r: bool)
    ensures
        r == is_dictionary_word(word@),
{
    let dict = load_dictionary();
    let w = chars_of(word);
    is_dictionary_word_in(&dict, &w)
}

// ---------------------------------------------------------------------------
// The English filter
// ---------------------------------------------------------------------------

/// The fallback for texts the detector leaves open: ASCII Latin letters only,
/// and some word of the text is a dictionary word.
pub open spec fn latin_fallback(t: Seq<char>) -> bool {
    latin_letters_only(t) && exists|i: int|
        0 <= i < runs(t, RunKind::Word).len() && #[trigger] is_dictionary_word(runs(t, RunKind::Word)[i])
}

/// The English filter on a text (before trimming), given the detector's
/// answer on the trimmed text.
pub open spec fn english_given(text: Seq<char>, guess: Option<(Seq<char>, bool, u64)>) -> bool {
    let t = trimmed(text);
    t.len() > 0 && match verdict_of_guess(guess) {
        Some(b) => b,
        None => latin_fallback(t),
    }
}

/// The English filter on a text (before trimming).
pub open spec fn english(text: Seq<char>) -> bool {
    english_given(text, whatlang_guess(trimmed(text)))
}

/// Whether some word of `words` is a dictionary word.
fn any_dictionary_word(dict: &Vec<Vec<char>>, words: &Vec<Vec<char>>) -> (r: bool)
    requires
        char_views(dict@) == dictionary(),
    ensures
        r == exists|i: int| 0 <= i < words@.len() && #[trigger] is_dictionary_word(char_views(words@)[i]),
{
    let mut i: usize = 0;
    while i < words.len()
        invariant
            i <= words.len(),
            char_views(dict@) == dictionary(),
            forall|k: int| 0 <= k < i ==> !#[trigger] is_dictionary_word(char_views(words@)[k]),
        decreases words.len() - i,
    {
        if is_dictionary_word_in(dict, &words[i]) {
            assert(is_dictionary_word(char_views(words@)[i as int]));
            return true;
        }
        i = i + 1;
    }
    false
}

/// The fallback check on a trimmed text: Latin letters only, and a
/// dictionary word among its words (with one word or none, that word must
/// be in the dictionary).
pub fn english_latin_fallback(t: &Vec<char>) -> (r: bool)
    ensures
        r == latin_fallback(t@),
{
    if !is_ascii_latin_letters(t) {
        return false;
    }
    let words = split_runs(t, RunKind::Word);
    let dict = load_dictionary();
    if words.len() <= 1 {
        if words.len() == 0 {
            return false;
        }
        let r = is_dictionary_word_in(&dict, &words[0]);
        assert(char_views(words@)[0] == words@[0]@);
        return r;
    }
    any_dictionary_word(&dict, &words)
}

/// The English filter given the detector's answer `guess` on the trimmed
/// text: the trimmed text is not empty, and the answer names English, or
/// leaves the question open and the fallback accepts the text.
pub fn is_english_given(text: &str, guess: &Option<LanguageGuess>) -> (r: bool)
    ensures
        r == english_given(text@, guess_view(*guess)),
{
    let chars = chars_of(text);
    let t = trim_chars(&chars);
    if t.len() == 0 {
        return false;
    }
    match verdict_from_guess(guess) {
        Some(b) => b,
        None => english_latin_fallback(&t),
    }
}

/// Whether `text` is accepted as English: trimmed, it is not empty, and the
/// detector names English, or leaves the question open and the fallback
/// accepts it.
pub fn is_english(text: &str) -> (r: bool)
    ensures
        r == english(text@),
{
    let chars = chars_of(text);
    let t = trim_chars(&chars);
    if t.len() == 0 {
        return false;
    }
    let guess = detect_trimmed(&t);
    is_english_given(text, &guess)
}

/// Whitespace around a text does not change the verdict.
pub proof fn law_english_ignores_surrounding_whitespace(text: Seq<char>)
    ensures
        english(trimmed(text)) == english(text),
{
    lemma_trimmed_idempotent(text);
}

/// Dictionary lookup ignores ASCII case: a word and its lower-case form are
/// looked up alike.
pub proof fn law_dictionary_ignores_ascii_case(word: Seq<char>)
    ensures
        is_dictionary_word(word) == is_dictionary_word(ascii_lower_seq(word)),
{
    assert(ascii_lower_seq(ascii_lower_seq(word)) =~= ascii_lower_seq(word));
}

/// An empty or blank text is never English.
pub proof fn law_blank_text_is_not_english(text: Seq<char>)
    requires
        trimmed(text).len() == 0,
    ensures
        !english(text),
{
}

/// When the detector names English, the text is English, whatever its
/// script or words.
pub proof fn law_detected_english_is_accepted(text: Seq<char>)
    requires
        trimmed(text).len() > 0,
        whatlang_guess(trimmed(text)) matches Some(g) && g.0 == "eng"@,
    ensures
        english(text),
{
}

/// A text with an alphabetic character outside ASCII is English only when
/// the detector names English.
pub proof fn law_non_latin_needs_detection(text: Seq<char>, i: int)
    requires
        0 <= i < trimmed(text).len(),
        unicode_alphabetic(trimmed(text)[i]),
        !is_ascii_letter(trimmed(text)[i]),
        english(text),
    ensures
        detection_verdict(trimmed(text)) == Some(true),
{
}

/// Only the language code `eng` makes the detector's answer an acceptance;
/// an answer that names any other language reliably is a rejection.
pub proof fn law_only_english_code_accepts(code: Seq<char>, reliable: bool, bits: u64)
    ensures
        (verdict_of_guess(Some((code, reliable, bits))) == Some(true)) <==> code == "eng"@,
        code != "eng"@ && reliable ==> verdict_of_guess(Some((code, reliable, bits))) == Some(false),
{
}

/// A text that the detector reliably places in a language other than
/// English is not English, whatever its letters and words.
pub proof fn law_reliable_other_language_is_rejected(text: Seq<char>)
    requires
        whatlang_guess(trimmed(text)) matches Some(g) && g.0 != "eng"@ && g.1,
    ensures
        !english(text),
{
}

/// What each detector answer decides: `eng` accepts; another language
/// named reliably, or with a confidence at the floor or above, rejects; an
/// unreliable guess below the floor, or no answer, leaves it open.
pub proof fn law_detector_answer_decides(code: Seq<char>, reliable: bool, bits: u64)
    ensures
        verdict_of_guess(None) is None,
        code == "eng"@ ==> verdict_of_guess(Some((code, reliable, bits))) == Some(true),
        code != "eng"@ && (reliable || bits >= NON_ENGLISH_CONFIDENCE_FLOOR_BITS) ==> verdict_of_guess(
            Some((code, reliable, bits)),
        ) == Some(false),
        code != "eng"@ && !reliable && bits < NON_ENGLISH_CONFIDENCE_FLOOR_BITS ==> verdict_of_guess(
            Some((code, reliable, bits)),
        ) is None,
{
}

/// When the detector leaves the question open, a non-blank text in ASCII
/// Latin letters with a dictionary word at any position is English; and an
/// English text the detector left open is in ASCII Latin letters and has a
/// dictionary word.
pub proof fn law_dictionary_word_decides_open_verdict(
    text: Seq<char>,
    guess: Option<(Seq<char>, bool, u64)>,
    i: int,
)
    requires
        verdict_of_guess(guess) is None,
    ensures
        trimmed(text).len() > 0 && latin_letters_only(trimmed(text)) && 0 <= i < runs(trimmed(text), RunKind::Word).len()
            && is_dictionary_word(runs(trimmed(text), RunKind::Word)[i]) ==> english_given(text, guess),
        english_given(text, guess) ==> latin_letters_only(trimmed(text)) && exists|k: int|
            0 <= k < runs(trimmed(text), RunKind::Word).len() && #[trigger] is_dictionary_word(
                runs(trimmed(text), RunKind::Word)[k],
            ),
{
}

/// Every word listed in `ENGLISH_WORDS` is a dictionary word, in any ASCII
/// case.
pub proof fn law_listed_words_are_dictionary_words(i: int, word: Seq<char>)
    requires
        0 <= i < runs(ENGLISH_WORDS@, RunKind::Line).len(),
        eq_ignore_ascii_case(word, runs(ENGLISH_WORDS@, RunKind::Line)[i]),
    ensures
        is_dictionary_word(word),
{
    assert(dictionary()[i] == ascii_lower_seq(runs(ENGLISH_WORDS@, RunKind::Line)[i]));
}

} // verus!
