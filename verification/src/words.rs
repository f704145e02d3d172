use vstd::prelude::*;
use vstd::string::StrSliceExecFns;
use vstd::string::StringExecFns;

verus! {

/// The position of the first plain space in `s`, or `s`'s length if there
/// is none.
pub open spec fn first_space(s: Seq<char>) -> int
    decreases s.len(),
{
    if s.len() == 0 {
        0
    } else if s[0] == ' ' {
        0
    } else {
        1 + first_space(s.drop_first())
    }
}

/// `first_space` names the position before which no space stands and at
/// which one stands, if any does.
proof fn lemma_first_space_at(s: Seq<char>, i: int)
    requires
        0 <= i <= s.len(),
        forall|j: int| 0 <= j < i ==> s[j] != ' ',
        i < s.len() ==> s[i] == ' ',
    ensures
        first_space(s) == i,
    decreases i,
{
    if i > 0 {
        assert(forall|j: int| 0 <= j < i - 1 ==> s.drop_first()[j] == s[j + 1]);
        lemma_first_space_at(s.drop_first(), i - 1);
    }
}

/// The first word of a text: everything before the first space, or the
/// whole text when it holds no space.
pub fn first_word<'a>(s: &'a str) -> (r: &'a str)
    ensures
        r@ == s@.subrange(0, first_space(s@)),
{
    let n = s.unicode_len();
    let mut i: usize = 0;
    while i < n
        invariant
            i <= n,
            n == s@.len(),
            forall|j: int| 0 <= j < i ==> s@[j] != ' ',
        decreases n - i,
    {
        if s.get_char(i) == ' ' {
            proof {
                lemma_first_space_at(s@, i as int);
            }
            return s.substring_char(0, i);
        }
        i = i + 1;
    }
    proof {
        lemma_first_space_at(s@, n as int);
        assert(s@.subrange(0, n as int) =~= s@);
    }
    s
}

/// Whether a character is one of the five plain vowels.
pub open spec fn is_vowel(c: char) -> bool {
    c == 'a' || c == 'i' || c == 'e' || c == 'o' || c == 'u'
}

/// Whether the word opens with a vowel.
pub fn check_vowels(s: &str) -> (r: bool)
    requires
        s@.len() > 0,
    ensures
        r == is_vowel(s@[0]),
{
    let c = s.get_char(0);
    c == 'a' || c == 'i' || c == 'e' || c == 'o' || c == 'u'
}

/// The pig-latin form of a word: a word that opens with a vowel gets
/// `-hay` added at its end; any other word moves its first letter to the
/// end and gets `ay` after a dash.
pub open spec fn pig_latin(s: Seq<char>) -> Seq<char>
    recommends
        s.len() > 0,
{
    if is_vowel(s[0]) {
        s + "-hay"@
    } else {
        s.subrange(1, s.len() as int) + "-"@ + seq![s[0]] + "ay"@
    }
}

/// Converts one word to pig latin.
pub fn convert_pig_latin(s: &str) -> (r: String)
    requires
        s@.len() > 0,
    ensures
        r@ == pig_latin(s@),
{
    let n = s.unicode_len();
    if check_vowels(s) {
        let mut r = String::from_str(s);
        r.append("-hay");
        r
    } else {
        let mut r = String::from_str(s.substring_char(1, n));
        r.append("-");
        r.append(s.substring_char(0, 1));
        r.append("ay");
        proof {
            assert(s@.subrange(0, 1) =~= seq![s@[0]]);
        }
        r
    }
}

} // verus!
