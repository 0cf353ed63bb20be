//! Text: views of optional text, trimming, joining and decimal numbers.
use vstd::prelude::*;

verus! {

/// The view of an optional text.
pub open spec fn opt_view(text: Option<String>) -> Option<Seq<char>> {
    match text {
        Some(text) => Some(text@),
        None => None,
    }
}

/// The view of an outcome that is a plain value or a message.
pub open spec fn plain_view<T>(outcome: Result<T, String>) -> Result<T, Seq<char>> {
    match outcome {
        Ok(value) => Ok(value),
        Err(message) => Err(message@),
    }
}

/// The view of an outcome that is a text or a message.
pub open spec fn text_view(outcome: Result<String, String>) -> Result<Seq<char>, Seq<char>> {
    match outcome {
        Ok(text) => Ok(text@),
        Err(message) => Err(message@),
    }
}

/// The views of several texts.
pub open spec fn views(texts: Seq<String>) -> Seq<Seq<char>> {
    texts.map_values(|text: String| text@)
}

/// Whether a character is a letter or a number in the sense of Unicode.
pub uninterp spec fn alphanumeric(c: char) -> bool;

/// `char::is_alphanumeric` is a function of the character; of the ASCII characters
/// it holds for the digits and the letters.
pub assume_specification[ char::is_alphanumeric ](c: char) -> (r: bool)
    ensures
        r == alphanumeric(c),
        (c as u32) < 128 ==> (r <==> '0' <= c <= '9' || 'a' <= c <= 'z' || 'A' <= c <= 'Z'),
;

/// A text without the characters on either side that are not alphanumeric.
pub open spec fn trimmed(s: Seq<char>) -> Seq<char>
    decreases s.len(),
{
    if s.len() == 0 {
        s
    } else if !alphanumeric(s.first()) {
        trimmed(s.drop_first())
    } else if !alphanumeric(s.last()) {
        trimmed(s.drop_last())
    } else {
        s
    }
}

/// A text that is not alphanumeric anywhere is trimmed away.
proof fn lemma_trimmed_empty(s: Seq<char>)
    requires
        forall|k: int| 0 <= k < s.len() ==> !alphanumeric(#[trigger] s[k]),
    ensures
        trimmed(s) == Seq::<char>::empty(),
    decreases s.len(),
{
    if s.len() > 0 {
        lemma_trimmed_empty(s.drop_first());
    }
}

/// What is left of a text lies between its first and its last alphanumeric
/// character.
proof fn lemma_trimmed_between(s: Seq<char>, i: int, j: int)
    requires
        0 <= i < j <= s.len(),
        alphanumeric(s[i]),
        alphanumeric(s[j - 1]),
        forall|k: int| 0 <= k < i ==> !alphanumeric(#[trigger] s[k]),
        forall|k: int| j <= k < s.len() ==> !alphanumeric(#[trigger] s[k]),
    ensures
        trimmed(s) == s.subrange(i, j),
    decreases s.len(),
{
    if i > 0 {
        let rest = s.drop_first();
        lemma_trimmed_between(rest, i - 1, j - 1);
        assert(rest.subrange(i - 1, j - 1) =~= s.subrange(i, j));
    } else if j < s.len() {
        let rest = s.drop_last();
        lemma_trimmed_between(rest, i, j);
        assert(rest.subrange(i, j) =~= s.subrange(i, j));
    } else {
        assert(s.subrange(i, j) =~= s);
    }
}

/// Trims the characters that are not alphanumeric from either side of a text.
pub fn trim_date(s: &str) -> (r: &str)
    ensures
        r@ == trimmed(s@),
{
    let mut count: usize = 0;
    let mut from: usize = 0;
    let mut to: usize = 0;
    let length: usize = s.unicode_len();
    for c in it: s.chars()
        invariant
            length == s@.len(),
            it.seq() == s@,
            count == it.index(),
            from <= to <= count,
            forall|k: int| 0 <= k < from ==> !alphanumeric(#[trigger] s@[k]),
            forall|k: int| to <= k < count ==> !alphanumeric(#[trigger] s@[k]),
            from < to ==> alphanumeric(s@[from as int]) && alphanumeric(s@[to - 1]),
            from == to ==> from == 0,
    {
        if c.is_alphanumeric() {
            if from == to {
                from = count;
            }
            to = count + 1;
        }
        count = count + 1;
    }
    proof {
        if from < to {
            lemma_trimmed_between(s@, from as int, to as int);
        } else {
            lemma_trimmed_empty(s@);
            assert(s@.subrange(0, 0) =~= Seq::<char>::empty());
        }
    }
    s.substring_char(from, to)
}

/// A trimmed text is either empty or starts and ends with an alphanumeric
/// character, and trimming it again leaves it as it is.
pub proof fn law_trimmed_ends(s: Seq<char>)
    ensures
        trimmed(s).len() > 0 ==> alphanumeric(trimmed(s).first()) && alphanumeric(
            trimmed(s).last(),
        ),
        trimmed(trimmed(s)) == trimmed(s),
    decreases s.len(),
{
    if s.len() > 0 {
        if !alphanumeric(s.first()) {
            law_trimmed_ends(s.drop_first());
        } else if !alphanumeric(s.last()) {
            law_trimmed_ends(s.drop_last());
        }
    }
}

/// Trimming only takes characters from the two ends, and none that is
/// alphanumeric: what is left starts at the first and stops at the second number
/// of `bounds`.
pub proof fn law_trimmed_keeps(s: Seq<char>) -> (bounds: (int, int))
    ensures
        0 <= bounds.0 <= bounds.1 <= s.len(),
        trimmed(s) == s.subrange(bounds.0, bounds.1),
        forall|k: int|
            0 <= k < bounds.0 || bounds.1 <= k < s.len() ==> !alphanumeric(#[trigger] s[k]),
    decreases s.len(),
{
    if s.len() == 0 {
        assert(s.subrange(0, 0) =~= s);
        (0, 0)
    } else if !alphanumeric(s.first()) {
        let rest = s.drop_first();
        let (i, j) = law_trimmed_keeps(rest);
        assert(rest.subrange(i, j) =~= s.subrange(i + 1, j + 1));
        assert forall|k: int| 0 <= k < i + 1 || j + 1 <= k < s.len() implies !alphanumeric(
            #[trigger] s[k],
        ) by {
            if k > 0 {
                assert(rest[k - 1] == s[k]);
            }
        }
        (i + 1, j + 1)
    } else if !alphanumeric(s.last()) {
        let rest = s.drop_last();
        let (i, j) = law_trimmed_keeps(rest);
        assert(rest.subrange(i, j) =~= s.subrange(i, j));
        assert forall|k: int| 0 <= k < i || j <= k < s.len() implies !alphanumeric(
            #[trigger] s[k],
        ) by {
            if k < rest.len() {
                assert(rest[k] == s[k]);
            }
        }
        (i, j)
    } else {
        assert(s.subrange(0, s.len() as int) =~= s);
        (0, s.len() as int)
    }
}

/// Joins two texts.
pub fn join2(a: &str, b: &str) -> (r: String)
    ensures
        r@ == a@ + b@,
{
    a.to_owned().concat(b)
}

/// Joins three texts.
pub fn join3(a: &str, b: &str, c: &str) -> (r: String)
    ensures
        r@ == a@ + b@ + c@,
{
    a.to_owned().concat(b).concat(c)
}

/// The characters of a text.
pub fn chars_of(s: &str) -> (r: Vec<char>)
    ensures
        r@ == s@,
{
    let mut chars: Vec<char> = Vec::new();
    for c in it: s.chars()
        invariant
            it.seq() == s@,
            chars@ == s@.take(it.index()),
    {
        chars.push(c);
    }
    assert(s@.take(s@.len() as int) =~= s@);
    chars
}

/// Whether two texts are the same.
pub fn same(a: &str, b: &str) -> (r: bool)
    ensures
        r == (a@ == b@),
{
    a.to_owned() == b.to_owned()
}

/// A number in decimal digits.
pub open spec fn decimal(n: nat) -> Seq<char>
    decreases n,
{
    if n < 10 {
        seq![digit(n)]
    } else {
        decimal(n / 10).push(digit(n % 10))
    }
}

/// The decimal digit for a number below ten.
pub open spec fn digit(n: nat) -> char {
    (('0' as u32) + n) as char
}

/// Writes a number in decimal digits.
pub fn to_decimal(n: usize) -> (r: String)
    ensures
        r@ == decimal(n as nat),
    decreases n,
{
    let last: usize = n % 10;
    let d = if last == 0 { "0" } else if last == 1 { "1" } else if last == 2 { "2" } else if last
        == 3 { "3" } else if last == 4 { "4" } else if last == 5 { "5" } else if last == 6 { "6" }
        else if last == 7 { "7" } else if last == 8 { "8" } else { "9" };
    proof {
        reveal_strlit("0");
        reveal_strlit("1");
        reveal_strlit("2");
        reveal_strlit("3");
        reveal_strlit("4");
        reveal_strlit("5");
        reveal_strlit("6");
        reveal_strlit("7");
        reveal_strlit("8");
        reveal_strlit("9");
        assert(d@ =~= seq![digit(last as nat)]);
    }
    if n < 10 {
        d.to_owned()
    } else {
        let front = to_decimal(n / 10);
        let all = front.concat(d);
        assert(all@ =~= decimal(n as nat));
        all
    }
}

/// A number in decimal digits reads as that number again: its digits are those of the
/// number, none is missing, and there is no leading zero.
pub proof fn law_decimal_reads_back(n: nat)
    ensures
        digits_value(decimal(n)) == n,
        decimal(n).len() > 0,
        forall|k: int| 0 <= k < decimal(n).len() ==> '0' <= #[trigger] decimal(n)[k] <= '9',
        n > 0 ==> decimal(n)[0] != '0',
        n == 0 ==> decimal(n).len() == 1,
    decreases n,
{
    if n >= 10 {
        law_decimal_reads_back(n / 10);
        assert(decimal(n).drop_last() =~= decimal(n / 10));
        assert(decimal(n)[0] == decimal(n / 10)[0]);
    } else {
        assert(decimal(n).drop_last() =~= Seq::empty());
        reveal_with_fuel(digits_value, 2);
    }
}

/// The number that a text of decimal digits stands for.
pub open spec fn digits_value(s: Seq<char>) -> nat
    decreases s.len(),
{
    if s.len() == 0 {
        0
    } else {
        digits_value(s.drop_last()) * 10 + (s.last() as nat - '0' as nat) as nat
    }
}

/// The views of texts are their characters, one for one.
pub proof fn law_views_of_texts(text: Option<String>, texts: Seq<String>)
    ensures
        text is None <==> opt_view(text) is None,
        text matches Some(t) ==> opt_view(text) == Some(t@),
        views(texts).len() == texts.len(),
        forall|k: int| 0 <= k < texts.len() ==> views(texts)[k] == (#[trigger] texts[k])@,
{
}

/// The views of outcomes have the same value, and messages by their characters.
pub proof fn law_views_of_outcomes(text: Result<String, String>, number: Result<i64, String>)
    ensures
        text matches Ok(t) ==> text_view(text) == Ok::<Seq<char>, Seq<char>>(t@),
        text matches Err(m) ==> text_view(text) == Err::<Seq<char>, Seq<char>>(m@),
        number matches Ok(n) ==> plain_view(number) == Ok::<i64, Seq<char>>(n),
        number matches Err(m) ==> plain_view(number) == Err::<i64, Seq<char>>(m@),
{
}

} // verus!
