//! Laws on texts and numbers, and the terms in which the other laws are stated.
use crate::creation::pull_policy;
use crate::creation::PullPolicy;
use crate::text::ascii_lower;
use crate::text::contains_text;
use crate::text::decimal;
use crate::text::decimal_text;
use crate::text::occurs_at;
use crate::text::signed_decimal_text;
use crate::text::text_at_most;
use crate::text::text_contains;
use crate::text::text_le;
use crate::text::trimmed;
use crate::text::trimmed_end;
use crate::text::trimmed_start;
use crate::text::white_space;
use vstd::prelude::*;

verus! {

/// Whether `s` holds `phrase`, with something or nothing around it.
pub open spec fn holds_phrase(s: Seq<char>, phrase: Seq<char>) -> bool {
    exists|a: Seq<char>, b: Seq<char>| s == #[trigger] (a + phrase + b)
}

/// Whether `s` is white space alone, or empty.
pub open spec fn blank(s: Seq<char>) -> bool {
    forall|i: int| 0 <= i < s.len() ==> white_space(#[trigger] s[i])
}

/// Whether `t` is what is left of `s` once the white space around it is gone.
pub open spec fn is_trim_of(t: Seq<char>, s: Seq<char>) -> bool {
    &&& exists|a: Seq<char>, b: Seq<char>| blank(a) && blank(b) && s == #[trigger] (a + t + b)
    &&& t.len() > 0 ==> !white_space(t.first()) && !white_space(t.last())
}

/// Whether `s` is `word` but for the case of ASCII letters.
pub open spec fn is_word(s: Seq<char>, word: Seq<char>) -> bool {
    &&& s.len() == word.len()
    &&& forall|i: int|
        0 <= i < s.len() ==> {
            ||| #[trigger] s[i] == word[i]
            ||| 'A' <= s[i] <= 'Z' && s[i] as int + 32 == word[i] as int
        }
}

/// Whether no ASCII capital is in `word`.
pub open spec fn without_capitals(word: Seq<char>) -> bool {
    forall|i: int| 0 <= i < word.len() ==> !('A' <= #[trigger] word[i] <= 'Z')
}

/// The number that a text of digits stands for.
pub open spec fn number_of(s: Seq<char>) -> int
    decreases s.len(),
{
    if s.len() == 0 {
        0
    } else {
        10 * number_of(s.drop_last()) + (s.last() as int - '0' as int)
    }
}

/// Whether `s` is `n` in decimal: digits that stand for `n`, without a zero in
/// front.
pub open spec fn is_decimal(s: Seq<char>, n: int) -> bool {
    &&& s.len() > 0
    &&& forall|i: int| 0 <= i < s.len() ==> '0' <= #[trigger] s[i] <= '9'
    &&& s[0] == '0' ==> s.len() == 1
    &&& number_of(s) == n
}

/// A phrase occurs where it can be cut out.
pub proof fn lemma_holds_phrase(s: Seq<char>, phrase: Seq<char>)
    ensures
        holds_phrase(s, phrase) == contains_text(s, phrase),
{
    if holds_phrase(s, phrase) {
        let (a, b) = choose|a: Seq<char>, b: Seq<char>| s == #[trigger] (a + phrase + b);
        let n = a.len() as int;
        assert(s.subrange(n, n + phrase.len()) =~= phrase);
        assert(occurs_at(s, phrase, n));
    }
    if contains_text(s, phrase) {
        let i = choose|i: int| #[trigger] occurs_at(s, phrase, i);
        let a = s.take(i);
        let b = s.skip(i + phrase.len());
        assert(s.subrange(i, i + phrase.len()) == phrase);
        assert(s =~= a + s.subrange(i, i + phrase.len()) + b);
        assert(s == a + phrase + b);
    }
}

/// White space in front of a text does not survive a trim.
proof fn lemma_trimmed_start(a: Seq<char>, x: Seq<char>)
    requires
        blank(a),
    ensures
        trimmed_start(a + x) == trimmed_start(x),
    decreases a.len(),
{
    if a.len() == 0 {
        assert(a + x =~= x);
    } else {
        assert(white_space(a[0]));
        assert((a + x).first() == a[0]);
        assert((a + x).drop_first() =~= a.drop_first() + x);
        assert forall|i: int| 0 <= i < a.drop_first().len() implies white_space(
            #[trigger] a.drop_first()[i],
        ) by {
            assert(white_space(a[i + 1]));
        }
        lemma_trimmed_start(a.drop_first(), x);
    }
}

/// White space behind a text does not survive a trim.
proof fn lemma_trimmed_end(x: Seq<char>, b: Seq<char>)
    requires
        blank(b),
    ensures
        trimmed_end(x + b) == trimmed_end(x),
    decreases b.len(),
{
    if b.len() == 0 {
        assert(x + b =~= x);
    } else {
        assert(white_space(b[b.len() - 1]));
        assert((x + b).last() == b[b.len() - 1]);
        assert((x + b).drop_last() =~= x + b.drop_last());
        assert forall|i: int| 0 <= i < b.drop_last().len() implies white_space(
            #[trigger] b.drop_last()[i],
        ) by {
            assert(white_space(b[i]));
        }
        lemma_trimmed_end(x, b.drop_last());
    }
}

/// What a trim takes off in front.
proof fn lemma_trimmed_start_splits(s: Seq<char>) -> (a: Seq<char>)
    ensures
        blank(a),
        s == a + trimmed_start(s),
        trimmed_start(s).len() > 0 ==> !white_space(trimmed_start(s).first()),
    decreases s.len(),
{
    if s.len() > 0 && white_space(s.first()) {
        let a = lemma_trimmed_start_splits(s.drop_first());
        let front = seq![s.first()] + a;
        assert(s =~= seq![s.first()] + s.drop_first());
        assert(s =~= front + trimmed_start(s));
        front
    } else {
        let none = Seq::<char>::empty();
        assert(s =~= none + s);
        none
    }
}

/// What a trim takes off behind.
proof fn lemma_trimmed_end_splits(s: Seq<char>) -> (b: Seq<char>)
    ensures
        blank(b),
        s == trimmed_end(s) + b,
        trimmed_end(s).len() > 0 ==> !white_space(trimmed_end(s).last()),
    decreases s.len(),
{
    if s.len() > 0 && white_space(s.last()) {
        let b = lemma_trimmed_end_splits(s.drop_last());
        let back = b.push(s.last());
        assert(s =~= s.drop_last().push(s.last()));
        assert(s =~= trimmed_end(s) + back);
        back
    } else {
        let none = Seq::<char>::empty();
        assert(s =~= s + none);
        none
    }
}

/// A text has one trim.
pub proof fn lemma_is_trim_of(t: Seq<char>, s: Seq<char>)
    ensures
        is_trim_of(t, s) == (t == trimmed(s)),
{
    if is_trim_of(t, s) {
        let (a, b) = choose|a: Seq<char>, b: Seq<char>|
            blank(a) && blank(b) && s == #[trigger] (a + t + b);
        assert(a + t + b =~= a + (t + b));
        lemma_trimmed_start(a, t + b);
        if t.len() > 0 {
            assert((t + b).first() == t.first());
            assert(trimmed_start(t + b) == t + b);
            lemma_trimmed_end(t, b);
            assert(trimmed_end(t) == t);
        } else {
            assert(t + b =~= b + Seq::empty());
            lemma_trimmed_start(b, Seq::empty());
            assert(trimmed(s) =~= Seq::empty());
            assert(t =~= Seq::empty());
        }
    }
    if t == trimmed(s) {
        let a = lemma_trimmed_start_splits(s);
        let b = lemma_trimmed_end_splits(trimmed_start(s));
        assert(s =~= a + t + b);
        if t.len() > 0 {
            assert(t.first() == trimmed_start(s).first());
        }
    }
}

/// Nothing but white space is what trims to nothing.
pub proof fn lemma_blank(s: Seq<char>)
    ensures
        blank(s) == (trimmed(s).len() == 0),
{
    lemma_is_trim_of(trimmed(s), s);
    if blank(s) {
        let none = Seq::<char>::empty();
        assert(s =~= s + none + none);
        assert(is_trim_of(none, s));
        lemma_is_trim_of(none, s);
    }
    if trimmed(s).len() == 0 {
        let t = trimmed(s);
        let (a, b) = choose|a: Seq<char>, b: Seq<char>|
            blank(a) && blank(b) && s == #[trigger] (a + t + b);
        assert forall|i: int| 0 <= i < s.len() implies white_space(#[trigger] s[i]) by {
            if i < a.len() {
                assert(white_space(a[i]));
            } else {
                assert(white_space(b[i - a.len()]));
            }
        }
    }
}

/// A text is a word but for case if the word is its lower-case form.
pub proof fn lemma_is_word(s: Seq<char>, word: Seq<char>)
    requires
        without_capitals(word),
    ensures
        is_word(s, word) == (ascii_lower(s) == word),
{
    if is_word(s, word) {
        assert forall|i: int| 0 <= i < s.len() implies ascii_lower(s)[i] == word[i] by {
            assert(s[i] == word[i] || ('A' <= s[i] <= 'Z' && s[i] as int + 32 == word[i] as int));
            assert(!('A' <= word[i] <= 'Z'));
        }
        assert(ascii_lower(s) =~= word);
    }
    if ascii_lower(s) == word {
        assert forall|i: int| 0 <= i < s.len() implies {
            ||| #[trigger] s[i] == word[i]
            ||| 'A' <= s[i] <= 'Z' && s[i] as int + 32 == word[i] as int
        } by {
            assert(ascii_lower(s)[i] == word[i]);
        }
    }
}

/// The digits of a number stand for it.
pub proof fn lemma_is_decimal(n: nat)
    ensures
        is_decimal(decimal(n), n as int),
        n > 0 ==> decimal(n)[0] != '0',
    decreases n,
{
    if n < 10 {
        assert(decimal(n).drop_last() =~= Seq::empty());
        assert(number_of(decimal(n).drop_last()) == 0);
    } else {
        lemma_is_decimal(n / 10);
        assert(decimal(n).drop_last() =~= decimal(n / 10));
        assert(decimal(n)[0] == decimal(n / 10)[0]);
    }
}

/// Numbers are written in decimal.
pub proof fn law_numbers_are_written_in_decimal(n: u64, res: String)
    requires
        call_ensures(decimal_text, (n,), res),
    ensures
        is_decimal(res@, n as int),
{
    lemma_is_decimal(n as nat);
}

/// Numbers below zero are written with a minus sign in front of their digits.
pub proof fn law_signed_numbers_are_written_in_decimal(n: i32, res: String)
    requires
        call_ensures(signed_decimal_text, (n,), res),
    ensures
        n >= 0 ==> is_decimal(res@, n as int),
        n < 0 ==> res@.len() > 0 && res@[0] == '-' && is_decimal(res@.skip(1), -n),
{
    if n < 0 {
        lemma_is_decimal((-n) as nat);
        assert(res@.skip(1) =~= decimal((-n) as nat));
    } else {
        lemma_is_decimal(n as nat);
    }
}

/// A text contains another if it can be split around it.
pub proof fn law_text_contains_what_it_is_split_around(s: &str, pattern: &str, res: bool)
    requires
        call_ensures(text_contains, (s, pattern), res),
    ensures
        res <==> holds_phrase(s@, pattern@),
{
    lemma_holds_phrase(s@, pattern@);
}

/// Where two texts first differ, the lower character decides which comes first;
/// where they do not, the shorter one does.
pub proof fn law_texts_are_ordered_by_their_first_difference(a: &str, b: &str, res: bool, i: int)
    requires
        call_ensures(text_at_most, (a, b), res),
        0 <= i <= a@.len(),
        i <= b@.len(),
        a@.take(i) == b@.take(i),
    ensures
        i < a@.len() && i < b@.len() && a@[i] != b@[i] ==> (res <==> a@[i] < b@[i]),
        i == a@.len() ==> res,
        i == b@.len() && i < a@.len() ==> !res,
{
    lemma_text_le_after_prefix(a@, b@, i);
}

/// Texts that start alike are ordered by what follows.
pub proof fn lemma_text_le_after_prefix(a: Seq<char>, b: Seq<char>, i: int)
    requires
        0 <= i <= a.len(),
        i <= b.len(),
        a.take(i) == b.take(i),
    ensures
        text_le(a, b) == text_le(a.skip(i), b.skip(i)),
        i < a.len() && i < b.len() && a[i] != b[i] ==> (text_le(a, b) <==> a[i] < b[i]),
        i == a.len() ==> text_le(a, b),
        i == b.len() && i < a.len() ==> !text_le(a, b),
    decreases i,
{
    if i > 0 {
        assert(a.take(i)[0] == a[0]);
        assert(b.take(i)[0] == b[0]);
        let x = a.drop_first();
        let y = b.drop_first();
        assert(x.take(i - 1) =~= a.take(i).drop_first());
        assert(y.take(i - 1) =~= b.take(i).drop_first());
        lemma_text_le_after_prefix(x, y, i - 1);
        assert(x.skip(i - 1) =~= a.skip(i));
        assert(y.skip(i - 1) =~= b.skip(i));
        if i < a.len() {
            assert(x[i - 1] == a[i]);
        }
        if i < b.len() {
            assert(y[i - 1] == b[i]);
        }
    } else {
        assert(a.skip(0) =~= a);
        assert(b.skip(0) =~= b);
    }
}

/// Spaces, tabs and line ends are white space; no other visible ASCII character is.
pub proof fn law_what_is_white_space(c: char)
    ensures
        c == ' ' || c == '\t' || c == '\n' || c == '\r' ==> white_space(c),
        '!' <= c <= '~' ==> !white_space(c),
{
}

/// The name of a pull policy is read without regard to case or to white space
/// around it. No name at all means `ifnotpresent`; a name that is none of the
/// three is refused, and quoted in lower case.
pub proof fn law_pull_policies_are_named(name: &str, core: Seq<char>, res: PullPolicy)
    requires
        call_ensures(pull_policy, (name,), res),
        is_trim_of(core, name@),
    ensures
        res is IfNotPresent <==> core.len() == 0 || is_word(core, "ifnotpresent"@),
        res is Always <==> is_word(core, "always"@),
        res is Never <==> is_word(core, "never"@),
        res matches PullPolicy::Unsupported(n) ==> without_capitals(n@) && is_word(core, n@),
{
    reveal_strlit("ifnotpresent");
    reveal_strlit("always");
    reveal_strlit("never");
    lemma_is_trim_of(core, name@);
    lemma_is_word(core, "ifnotpresent"@);
    lemma_is_word(core, "always"@);
    lemma_is_word(core, "never"@);
    assert("ifnotpresent"@.len() != "always"@.len());
    assert("never"@.len() != "always"@.len());
    if let PullPolicy::Unsupported(n) = res {
        assert(n@ == ascii_lower(core));
        assert forall|i: int| 0 <= i < n@.len() implies !('A' <= #[trigger] n@[i] <= 'Z') by {
            assert(n@[i] == ascii_lower(core)[i]);
        }
        lemma_is_word(core, n@);
    }
}

} // verus!
